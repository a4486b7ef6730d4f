//! Archive files: their names and metadata, the local cache, and the shell
//! command plans that create, restore and unpack archives.

use vstd::prelude::*;
use vstd::string::StringExecFns;
use crate::app_config::AppConfig;
use crate::archive_type::{
    ArchiveType, get_archive_config, parse_archive_type, spec_archive_config, spec_parse_type,
    spec_type_name,
};
use crate::dates::{
    date_text, format_timestamp, is_expired, spec_days_valid, spec_format_timestamp, spec_is_expired,
    spec_representable, timestamp_is_representable,
};
use crate::errors::{CustomError, Result, fails_with_message};
use crate::extensions::{
    PathExtensions, is_plain_component, path_push, spec_path_file_name, spec_path_push,
};
use crate::script::{Script, Step, StepView, run_script, script_outcome, shell_steps, shells, step_views};
use crate::text::{
    i64_to_string, join_strings, lemma_parse_decimal, lemma_split_join, lemma_nat_digits,
    parse_i64, spec_decimal, spec_join, spec_parse_i64, spec_split, split, string_views,
    all_digits, is_digit,
};

verus! {

/// The extension of archive files.
pub open spec fn archive_extension() -> Seq<char> {
    "backup"@
}

/// An archive file found on disk or on a remote.
pub struct ArchiveMetadata {
    pub archive_type: ArchiveType,
    /// When the archive was made, in seconds since the Unix epoch.
    pub archive_date: i64,
    pub full_path: String,
}

/// The value of an [`ArchiveMetadata`].
pub struct ArchiveMetadataView {
    pub archive_type: ArchiveType,
    pub archive_date: i64,
    pub full_path: Seq<char>,
}

impl View for ArchiveMetadata {
    type V = ArchiveMetadataView;

    open spec fn view(&self) -> ArchiveMetadataView {
        ArchiveMetadataView {
            archive_type: self.archive_type,
            archive_date: self.archive_date,
            full_path: self.full_path@,
        }
    }
}

impl ArchiveMetadata {
    /// A copy with the same value.
    pub fn copy(&self) -> (res: ArchiveMetadata)
        ensures
            res@ == self@,
    {
        ArchiveMetadata {
            archive_type: self.archive_type,
            archive_date: self.archive_date,
            full_path: self.full_path.clone(),
        }
    }
}

/// The views of a list of archives.
pub open spec fn metadata_views(s: Seq<ArchiveMetadata>) -> Seq<ArchiveMetadataView> {
    s.map_values(|m: ArchiveMetadata| m@)
}

/// The file name of an archive of type `t` made at `ts`, where `date` is the
/// day of `ts` as text: `<type>.<date>.<timestamp>.backup`.
pub open spec fn spec_archive_file_name(t: ArchiveType, date: Seq<char>, ts: i64) -> Seq<char> {
    spec_join(seq![spec_type_name(t), date, spec_decimal(ts as int), archive_extension()], seq!['.'])
}

/// The type and timestamp that an archive file name records, if it is one:
/// four dot-separated parts, the last being the extension, the third a
/// timestamp and the first a known type name.
pub open spec fn spec_parse_file_name(name: Seq<char>) -> Option<(ArchiveType, i64)> {
    let parts = spec_split(name, '.');
    if parts.len() != 4 || parts[3] != archive_extension() {
        None
    } else {
        match spec_parse_i64(parts[2]) {
            None => None,
            Some(ts) => match spec_parse_type(parts[0]) {
                None => None,
                Some(t) => Some((t, ts)),
            },
        }
    }
}

/// What [`read_metadata`] recognizes in a file name: a parsed name whose
/// timestamp `chrono` can represent.
pub open spec fn spec_metadata_of_name(name: Seq<char>) -> Option<(ArchiveType, i64)> {
    match spec_parse_file_name(name) {
        Some((t, ts)) => if spec_representable(ts) { Some((t, ts)) } else { None },
        None => None,
    }
}

/// The outcome of [`read_metadata`] for the path `path`: an error when the
/// path has no file name, else the metadata when the file name is an
/// archive's.
pub open spec fn spec_read_metadata(path: Seq<char>) -> Option<Option<ArchiveMetadataView>> {
    match spec_path_file_name(path) {
        None => None,
        Some(name) => Some(match spec_metadata_of_name(name) {
            None => None,
            Some((t, ts)) => Some(ArchiveMetadataView { archive_type: t, archive_date: ts, full_path: path }),
        }),
    }
}

/// The message of the error for a path without a file name.
pub open spec fn no_file_name_message() -> Seq<char> {
    "The file does not have a `file_stem`."@
}

/// Recognizes an archive file name.
pub fn parse_archive_file_name(name: &str) -> (res: Option<(ArchiveType, i64)>)
    ensures
        res == spec_metadata_of_name(name@),
{
    let parts = split(name, '.');
    if parts.len() != 4 {
        return None;
    }
    let ext = "backup".to_owned();
    if parts[3] != ext {
        return None;
    }
    match parse_i64(parts[2].as_str()) {
        None => None,
        Some(epoch) => {
            match parse_archive_type(parts[0].as_str()) {
                Err(_) => None,
                Ok(archive_type) => {
                    if timestamp_is_representable(epoch) {
                        Some((archive_type, epoch))
                    } else {
                        None
                    }
                },
            }
        },
    }
}

/// Reads the metadata that the name of the file at `path` records. A path
/// without a file name is an error; a file name that is not an archive's
/// gives `None`.
pub fn read_metadata(path: &str) -> (res: Result<Option<ArchiveMetadata>>)
    ensures
        match spec_read_metadata(path@) {
            None => fails_with_message(res, no_file_name_message()),
            Some(None) => res matches Ok(None),
            Some(Some(m)) => res matches Ok(Some(r)) && r@ == m,
        },
{
    let file_name = match path.file_name_as_string() {
        Ok(n) => n,
        Err(e) => return Err(e),
    };
    match parse_archive_file_name(file_name.as_str()) {
        None => Ok(None),
        Some((archive_type, archive_date)) => Ok(Some(ArchiveMetadata {
            archive_type,
            archive_date,
            full_path: path.to_owned(),
        })),
    }
}

/// Builds the file name of an archive of type `archive_type` made at `ts` on
/// the day `date`.
pub fn archive_file_name(archive_type: &ArchiveType, date: &str, ts: i64) -> (res: String)
    ensures
        res@ == spec_archive_file_name(*archive_type, date@, ts),
{
    let mut parts: Vec<String> = Vec::new();
    parts.push(archive_type.to_string());
    parts.push(date.to_owned());
    parts.push(i64_to_string(ts));
    parts.push("backup".to_owned());
    let res = join_strings(&parts, ".");
    proof {
        assert(string_views(parts@) =~= seq![spec_type_name(*archive_type), date@, spec_decimal(ts as int), archive_extension()]);
        reveal_strlit(".");
        assert("."@ =~= seq!['.']);
    }
    res
}

/// The name of an archive made by this tool records its type and its
/// timestamp: reading the name back gives both, whatever the day text is as
/// long as it holds no `.` (the `%Y-%m-%d` form of a date holds none).
pub proof fn lemma_archive_file_name_roundtrip(t: ArchiveType, date: Seq<char>, ts: i64)
    requires
        !date.contains('.'),
    ensures
        spec_parse_file_name(spec_archive_file_name(t, date, ts)) == Some((t, ts)),
{
    reveal_strlit("docker-volumes");
    reveal_strlit("backup");
    let d = spec_decimal(ts as int);
    let parts = seq![spec_type_name(t), date, d, archive_extension()];
    lemma_parse_decimal(ts);
    assert(!d.contains('.')) by {
        if ts < 0 {
            lemma_nat_digits((-(ts as int)) as nat);
            let n = crate::text::nat_digits((-(ts as int)) as nat);
            assert(d =~= seq!['-'] + n);
            if d.contains('.') {
                let k = choose|k: int| 0 <= k < d.len() && d[k] == '.';
                if k > 0 {
                    assert(d[k] == n[k - 1]);
                    assert(is_digit(n[k - 1]));
                }
            }
        } else {
            lemma_nat_digits(ts as nat);
            let n = crate::text::nat_digits(ts as nat);
            if d.contains('.') {
                let k = choose|k: int| 0 <= k < d.len() && d[k] == '.';
                assert(is_digit(n[k]));
            }
        }
    }
    assert(!spec_type_name(t).contains('.')) by {
        if spec_type_name(t).contains('.') {
            let k = choose|k: int| 0 <= k < spec_type_name(t).len() && spec_type_name(t)[k] == '.';
        }
    }
    assert(!archive_extension().contains('.')) by {
        if archive_extension().contains('.') {
            let k = choose|k: int| 0 <= k < archive_extension().len() && archive_extension()[k] == '.';
        }
    }
    assert forall|i: int| 0 <= i < parts.len() implies !(#[trigger] parts[i]).contains('.') by {
        if i == 0 {} else if i == 1 {} else if i == 2 {} else {}
    }
    lemma_split_join(parts, '.');
}


/// The texts of a list of commands.
pub open spec fn commands(v: Vec<String>) -> Seq<Seq<char>> {
    string_views(v@)
}

/// `mkdir -p <p> && chmod 777 <p>`
pub open spec fn cmd_make_dir(p: Seq<char>) -> Seq<char> {
    "mkdir -p "@ + p + " && chmod 777 "@ + p
}

/// `cd <u> && tar cf - . | pigz -<level> > <c>`
pub open spec fn cmd_compress(u: Seq<char>, level: i64, c: Seq<char>) -> Seq<char> {
    "cd "@ + u + " && tar cf - . | pigz -"@ + spec_decimal(level as int) + " > "@ + c
}

/// `rm <p> -rf`
pub open spec fn cmd_remove_tree(p: Seq<char>) -> Seq<char> {
    "rm "@ + p + " -rf"@
}

/// `rm <p> -f`
pub open spec fn cmd_remove_file(p: Seq<char>) -> Seq<char> {
    "rm "@ + p + " -f"@
}

/// `mv <a> <b>`
pub open spec fn cmd_move(a: Seq<char>, b: Seq<char>) -> Seq<char> {
    "mv "@ + a + " "@ + b
}

/// `cp <a> <b>`
pub open spec fn cmd_copy(a: Seq<char>, b: Seq<char>) -> Seq<char> {
    "cp "@ + a + " "@ + b
}

/// `gpg -e --batch -r <key> --output <out> <input>`
pub open spec fn cmd_encrypt(key: Seq<char>, out: Seq<char>, input: Seq<char>) -> Seq<char> {
    "gpg -e --batch -r "@ + key + " --output "@ + out + " "@ + input
}

/// `gpg --output <out> -d <input>`
pub open spec fn cmd_decrypt(out: Seq<char>, input: Seq<char>) -> Seq<char> {
    "gpg --output "@ + out + " -d "@ + input
}

/// `mkdir -p <o> && cd <o> && tar -xf <c>`
pub open spec fn cmd_extract(o: Seq<char>, c: Seq<char>) -> Seq<char> {
    "mkdir -p "@ + o + " && cd "@ + o + " && tar -xf "@ + c
}

fn make_dir_command(p: &str) -> (res: String)
    ensures
        res@ == cmd_make_dir(p@),
{
    let mut s = "mkdir -p ".to_owned();
    s.append(p);
    s.append(" && chmod 777 ");
    s.append(p);
    s
}

fn compress_command(u: &str, level: i64, c: &str) -> (res: String)
    ensures
        res@ == cmd_compress(u@, level, c@),
{
    let mut s = "cd ".to_owned();
    s.append(u);
    s.append(" && tar cf - . | pigz -");
    let l = i64_to_string(level);
    s.append(l.as_str());
    s.append(" > ");
    s.append(c);
    s
}

/// The command that removes the directory tree at `p`.
pub fn remove_tree_command(p: &str) -> (res: String)
    ensures
        res@ == cmd_remove_tree(p@),
{
    let mut s = "rm ".to_owned();
    s.append(p);
    s.append(" -rf");
    s
}

/// The command that removes the file at `p`.
pub fn remove_file_command(p: &str) -> (res: String)
    ensures
        res@ == cmd_remove_file(p@),
{
    let mut s = "rm ".to_owned();
    s.append(p);
    s.append(" -f");
    s
}

fn move_command(a: &str, b: &str) -> (res: String)
    ensures
        res@ == cmd_move(a@, b@),
{
    let mut s = "mv ".to_owned();
    s.append(a);
    s.append(" ");
    s.append(b);
    s
}

fn copy_command(a: &str, b: &str) -> (res: String)
    ensures
        res@ == cmd_copy(a@, b@),
{
    let mut s = "cp ".to_owned();
    s.append(a);
    s.append(" ");
    s.append(b);
    s
}

fn encrypt_command(key: &str, out: &str, input: &str) -> (res: String)
    ensures
        res@ == cmd_encrypt(key@, out@, input@),
{
    let mut s = "gpg -e --batch -r ".to_owned();
    s.append(key);
    s.append(" --output ");
    s.append(out);
    s.append(" ");
    s.append(input);
    s
}

fn decrypt_command(out: &str, input: &str) -> (res: String)
    ensures
        res@ == cmd_decrypt(out@, input@),
{
    let mut s = "gpg --output ".to_owned();
    s.append(out);
    s.append(" -d ");
    s.append(input);
    s
}

fn extract_command(o: &str, c: &str) -> (res: String)
    ensures
        res@ == cmd_extract(o@, c@),
{
    let mut s = "mkdir -p ".to_owned();
    s.append(o);
    s.append(" && cd ");
    s.append(o);
    s.append(" && tar -xf ");
    s.append(c);
    s
}

/// `c` is a character of the text form of a UUID.
pub open spec fn is_uuid_char(c: char) -> bool {
    ('0' <= c && c <= '9') || ('a' <= c && c <= 'f') || c == '-'
}

/// `uuid::Uuid::new_v4().to_string()`: a fresh random identifier, in the
/// hyphenated lower-case form (36 characters of hex digits and `-`).
#[verifier::external_body]
fn new_work_id() -> (res: String)
    ensures
        res@.len() == 36,
        forall|i: int| 0 <= i < res@.len() ==> is_uuid_char(#[trigger] res@[i]),
{
    uuid::Uuid::new_v4().to_string()
}

/// What is needed to make an archive.
pub struct CreateArchiveOptions {
    /// Where the archive goes.
    pub file_path: String,
    pub no_encryption: bool,
    pub archive_type: ArchiveType,
    /// The archive goes to the local cache, and its metadata is read back.
    pub is_cached_archive: bool,
}

/// What is needed to restore an archive.
pub struct RestoreArchiveOptions {
    pub file_path: String,
    pub no_decryption: bool,
    pub archive_type: ArchiveType,
}

/// What is needed to unpack an archive into a directory.
pub struct UnpackArchiveOptions {
    pub file_path: String,
    pub out_path: String,
    pub no_decryption: bool,
    pub archive_type: ArchiveType,
}

/// The shell work that makes an archive. The commands of `prepare` run in
/// order; then the archive procedure of the type fills `uncompressed`; then
/// the commands of `finish` run; `cleanup` runs last whatever happened.
pub struct CreateArchivePlan {
    pub work_path: String,
    pub config_name: String,
    pub uncompressed: String,
    pub prepare: Vec<String>,
    pub finish: Vec<String>,
    pub cleanup: Vec<String>,
}

/// The paths of a work directory.
pub open spec fn uncompressed_path(work: Seq<char>) -> Seq<char> {
    spec_path_push(work, "uncompressed-archive"@)
}

/// The compressed archive in a work directory.
pub open spec fn compressed_path(work: Seq<char>) -> Seq<char> {
    spec_path_push(work, "compressed-archive.tar.gz"@)
}

/// The final (encrypted) archive in a work directory.
pub open spec fn final_path(work: Seq<char>) -> Seq<char> {
    spec_path_push(work, "final.enc"@)
}

/// The commands that turn the filled directory into the archive file.
pub open spec fn spec_finish_commands(config: AppConfig, options: CreateArchiveOptions, work: Seq<char>) -> Seq<Seq<char>> {
    let archive_config = spec_archive_config(config, options.archive_type);
    let u = uncompressed_path(work);
    let c = compressed_path(work);
    let f = final_path(work);
    let packed = seq![cmd_compress(u, archive_config.rar_compression_level, c), cmd_remove_tree(u)];
    let sealed = if options.no_encryption {
        seq![cmd_move(c, f)]
    } else {
        seq![cmd_encrypt(archive_config.gpg_key_name, f, c), cmd_remove_file(c)]
    };
    packed + sealed + seq![cmd_move(f, options.file_path@)]
}

/// `plan` makes the archive of `options` in the work directory
/// `<temp_path>/<work_id>`.
pub open spec fn spec_create_plan(plan: CreateArchivePlan, config: AppConfig, options: CreateArchiveOptions, work_id: Seq<char>) -> bool {
    let work = spec_path_push(spec_archive_config(config, options.archive_type).temp_path, work_id);
    &&& plan.work_path@ == work
    &&& plan.config_name@ == spec_type_name(options.archive_type)
    &&& plan.uncompressed@ == uncompressed_path(work)
    &&& commands(plan.prepare) == seq![cmd_make_dir(work), cmd_make_dir(uncompressed_path(work))]
    &&& commands(plan.finish) == spec_finish_commands(config, options, work)
    &&& commands(plan.cleanup) == seq![cmd_remove_tree(work)]
}

/// The plan that makes the archive of `options` in the work directory named
/// `work_id`.
pub fn create_archive_plan(config: &AppConfig, options: &CreateArchiveOptions, work_id: &str) -> (res: CreateArchivePlan)
    ensures
        spec_create_plan(res, *config, *options, work_id@),
{
    let archive_config = get_archive_config(config, &options.archive_type);
    let work_path = path_push(archive_config.temp_path.as_str(), work_id);
    let uncompressed = path_push(work_path.as_str(), "uncompressed-archive");
    let compressed = path_push(work_path.as_str(), "compressed-archive.tar.gz");
    let final_archive = path_push(work_path.as_str(), "final.enc");

    let mut prepare: Vec<String> = Vec::new();
    prepare.push(make_dir_command(work_path.as_str()));
    prepare.push(make_dir_command(uncompressed.as_str()));

    let mut finish: Vec<String> = Vec::new();
    finish.push(compress_command(uncompressed.as_str(), archive_config.rar_compression_level, compressed.as_str()));
    finish.push(remove_tree_command(uncompressed.as_str()));
    if options.no_encryption {
        finish.push(move_command(compressed.as_str(), final_archive.as_str()));
    } else {
        finish.push(encrypt_command(archive_config.gpg_key_name.as_str(), final_archive.as_str(), compressed.as_str()));
        finish.push(remove_file_command(compressed.as_str()));
    }
    finish.push(move_command(final_archive.as_str(), options.file_path.as_str()));

    let mut cleanup: Vec<String> = Vec::new();
    cleanup.push(remove_tree_command(work_path.as_str()));

    let plan = CreateArchivePlan {
        work_path,
        config_name: options.archive_type.get_config_name(),
        uncompressed,
        prepare,
        finish,
        cleanup,
    };
    assert(commands(plan.prepare) =~= seq![cmd_make_dir(plan.work_path@), cmd_make_dir(uncompressed_path(plan.work_path@))]);
    assert(commands(plan.finish) =~= spec_finish_commands(*config, *options, plan.work_path@));
    assert(commands(plan.cleanup) =~= seq![cmd_remove_tree(plan.work_path@)]);
    plan
}

/// Plans the making of the archive of `options` in a fresh work directory
/// named by a random UUID.
pub fn create_archive(config: &AppConfig, options: &CreateArchiveOptions) -> (res: CreateArchivePlan)
    ensures
        exists|work_id: Seq<char>| #![trigger spec_path_push(spec_archive_config(*config, options.archive_type).temp_path, work_id)]
            work_id.len() == 36 && spec_create_plan(res, *config, *options, work_id),
{
    let work_id = new_work_id();
    let plan = create_archive_plan(config, options, work_id.as_str());
    assert(spec_path_push(spec_archive_config(*config, options.archive_type).temp_path, work_id@) == plan.work_path@);
    plan
}

/// The message of the error for an archive whose name cannot be read back.
pub open spec fn malformed_archive_message() -> Seq<char> {
    "The archiver somehow did not produce a correct archive."@
}

/// What creating the archive of `options` returns once its commands
/// succeeded: for an archive of the cache, the metadata read back from its
/// name (an error when there is none); otherwise nothing.
pub open spec fn finish_outcome(options: CreateArchiveOptions, res: Result<Option<ArchiveMetadata>>) -> bool {
    &&& (!options.is_cached_archive ==> (res matches Ok(None)))
    &&& options.is_cached_archive ==> match spec_read_metadata(options.file_path@) {
        None => fails_with_message(res, no_file_name_message()),
        Some(None) => fails_with_message(res, malformed_archive_message()),
        Some(Some(m)) => res matches Ok(Some(r)) && r@ == m,
    }
}

/// What creating an archive returns once its commands succeeded: for an
/// archive of the cache, the metadata read back from its name (an error when
/// there is none); otherwise nothing.
pub fn finish_create_archive(options: &CreateArchiveOptions) -> (res: Result<Option<ArchiveMetadata>>)
    ensures
        finish_outcome(*options, res),
{
    if options.is_cached_archive {
        match read_metadata(options.file_path.as_str()) {
            Err(e) => Err(e),
            Ok(None) => Err(CustomError::from_message("The archiver somehow did not produce a correct archive.")),
            Ok(Some(m)) => Ok(Some(m)),
        }
    } else {
        Ok(None)
    }
}

/// The shell work that restores an archive: `prepare` runs, then the restore
/// procedure of the type gets the work directory and `compressed`, and
/// `cleanup` runs last whatever happened.
pub struct RestoreArchivePlan {
    pub work_path: String,
    pub config_name: String,
    pub compressed: String,
    pub prepare: Vec<String>,
    pub cleanup: Vec<String>,
}

/// The command that gets the compressed archive out of the archive file.
pub open spec fn spec_open_command(no_decryption: bool, archive: Seq<char>, compressed: Seq<char>) -> Seq<char> {
    if no_decryption {
        cmd_copy(archive, compressed)
    } else {
        cmd_decrypt(compressed, archive)
    }
}

fn open_command(no_decryption: bool, archive: &str, compressed: &str) -> (res: String)
    ensures
        res@ == spec_open_command(no_decryption, archive@, compressed@),
{
    if no_decryption {
        copy_command(archive, compressed)
    } else {
        decrypt_command(compressed, archive)
    }
}

/// `plan` restores the archive of `options` in the work directory
/// `<temp_path>/<work_id>`.
pub open spec fn spec_restore_plan(plan: RestoreArchivePlan, config: AppConfig, options: RestoreArchiveOptions, work_id: Seq<char>) -> bool {
    let work = spec_path_push(spec_archive_config(config, options.archive_type).temp_path, work_id);
    &&& plan.work_path@ == work
    &&& plan.config_name@ == spec_type_name(options.archive_type)
    &&& plan.compressed@ == compressed_path(work)
    &&& commands(plan.prepare) == seq![cmd_make_dir(work), spec_open_command(options.no_decryption, options.file_path@, compressed_path(work))]
    &&& commands(plan.cleanup) == seq![cmd_remove_tree(work)]
}

/// The plan that restores the archive of `options` in the work directory
/// named `work_id`.
pub fn restore_archive_plan(config: &AppConfig, options: &RestoreArchiveOptions, work_id: &str) -> (res: RestoreArchivePlan)
    ensures
        spec_restore_plan(res, *config, *options, work_id@),
{
    let archive_config = get_archive_config(config, &options.archive_type);
    let work_path = path_push(archive_config.temp_path.as_str(), work_id);
    let compressed = path_push(work_path.as_str(), "compressed-archive.tar.gz");
    let mut prepare: Vec<String> = Vec::new();
    prepare.push(make_dir_command(work_path.as_str()));
    prepare.push(open_command(options.no_decryption, options.file_path.as_str(), compressed.as_str()));
    let mut cleanup: Vec<String> = Vec::new();
    cleanup.push(remove_tree_command(work_path.as_str()));
    let plan = RestoreArchivePlan {
        work_path,
        config_name: options.archive_type.get_config_name(),
        compressed,
        prepare,
        cleanup,
    };
    assert(commands(plan.prepare) =~= seq![cmd_make_dir(plan.work_path@),
        spec_open_command(options.no_decryption, options.file_path@, compressed_path(plan.work_path@))]);
    assert(commands(plan.cleanup) =~= seq![cmd_remove_tree(plan.work_path@)]);
    plan
}

/// Plans the restoring of the archive of `options` in a fresh work directory
/// named by a random UUID.
pub fn restore_archive(config: &AppConfig, options: &RestoreArchiveOptions) -> (res: RestoreArchivePlan)
    ensures
        exists|work_id: Seq<char>| #![trigger spec_path_push(spec_archive_config(*config, options.archive_type).temp_path, work_id)]
            work_id.len() == 36 && spec_restore_plan(res, *config, *options, work_id),
{
    let work_id = new_work_id();
    let plan = restore_archive_plan(config, options, work_id.as_str());
    assert(spec_path_push(spec_archive_config(*config, options.archive_type).temp_path, work_id@) == plan.work_path@);
    plan
}

/// The shell work that unpacks an archive: `commands` run in order and
/// `cleanup` runs last whatever happened.
pub struct UnpackArchivePlan {
    pub work_path: String,
    pub commands: Vec<String>,
    pub cleanup: Vec<String>,
}

/// `plan` unpacks the archive of `options` through the work directory
/// `<temp_path>/<work_id>`.
pub open spec fn spec_unpack_plan(plan: UnpackArchivePlan, config: AppConfig, options: UnpackArchiveOptions, work_id: Seq<char>) -> bool {
    let work = spec_path_push(spec_archive_config(config, options.archive_type).temp_path, work_id);
    &&& plan.work_path@ == work
    &&& commands(plan.commands) == seq![
        cmd_make_dir(work),
        spec_open_command(options.no_decryption, options.file_path@, compressed_path(work)),
        cmd_extract(options.out_path@, compressed_path(work)),
    ]
    &&& commands(plan.cleanup) == seq![cmd_remove_tree(work)]
}

/// The plan that unpacks the archive of `options` through the work directory
/// named `work_id`.
pub fn unpack_archive_plan(config: &AppConfig, options: &UnpackArchiveOptions, work_id: &str) -> (res: UnpackArchivePlan)
    ensures
        spec_unpack_plan(res, *config, *options, work_id@),
{
    let archive_config = get_archive_config(config, &options.archive_type);
    let work_path = path_push(archive_config.temp_path.as_str(), work_id);
    let compressed = path_push(work_path.as_str(), "compressed-archive.tar.gz");
    let mut cmds: Vec<String> = Vec::new();
    cmds.push(make_dir_command(work_path.as_str()));
    cmds.push(open_command(options.no_decryption, options.file_path.as_str(), compressed.as_str()));
    cmds.push(extract_command(options.out_path.as_str(), compressed.as_str()));
    let mut cleanup: Vec<String> = Vec::new();
    cleanup.push(remove_tree_command(work_path.as_str()));
    let plan = UnpackArchivePlan { work_path, commands: cmds, cleanup };
    assert(commands(plan.commands) =~= seq![
        cmd_make_dir(plan.work_path@),
        spec_open_command(options.no_decryption, options.file_path@, compressed_path(plan.work_path@)),
        cmd_extract(options.out_path@, compressed_path(plan.work_path@)),
    ]);
    assert(commands(plan.cleanup) =~= seq![cmd_remove_tree(plan.work_path@)]);
    plan
}

/// Plans the unpacking of the archive of `options` through a fresh work
/// directory named by a random UUID.
pub fn unpack_archive(config: &AppConfig, options: &UnpackArchiveOptions) -> (res: UnpackArchivePlan)
    ensures
        exists|work_id: Seq<char>| #![trigger spec_path_push(spec_archive_config(*config, options.archive_type).temp_path, work_id)]
            work_id.len() == 36 && spec_unpack_plan(res, *config, *options, work_id),
{
    let work_id = new_work_id();
    let plan = unpack_archive_plan(config, options, work_id.as_str());
    assert(spec_path_push(spec_archive_config(*config, options.archive_type).temp_path, work_id@) == plan.work_path@);
    plan
}


proof fn lemma_join_without(parts: Seq<Seq<char>>, sep: Seq<char>, c: char)
    requires
        forall|i: int| 0 <= i < parts.len() ==> !(#[trigger] parts[i]).contains(c),
        !sep.contains(c),
    ensures
        !spec_join(parts, sep).contains(c),
    decreases parts.len(),
{
    if parts.len() == 1 {
        assert(!parts[0].contains(c));
    } else if parts.len() > 1 {
        lemma_join_without(parts.drop_last(), sep, c);
        let j = spec_join(parts.drop_last(), sep);
        let r = j + sep + parts.last();
        assert(!parts[parts.len() - 1].contains(c));
        if r.contains(c) {
            let k = choose|k: int| 0 <= k < r.len() && r[k] == c;
            if k < j.len() {
                assert(j[k] == c);
            } else if k < j.len() + sep.len() {
                assert(sep[k - j.len()] == c);
            } else {
                assert(parts.last()[k - j.len() - sep.len()] == c);
            }
        }
    }
}

proof fn lemma_decimal_without(v: i64, c: char)
    requires
        !('0' <= c <= '9'),
        c != '-',
    ensures
        !spec_decimal(v as int).contains(c),
{
    let d = spec_decimal(v as int);
    if d.contains(c) {
        let k = choose|k: int| 0 <= k < d.len() && d[k] == c;
        if v < 0 {
            lemma_nat_digits((-(v as int)) as nat);
            let n = crate::text::nat_digits((-(v as int)) as nat);
            assert(d =~= seq!['-'] + n);
            if k > 0 {
                assert(d[k] == n[k - 1]);
                assert(is_digit(n[k - 1]));
            }
        } else {
            lemma_nat_digits(v as nat);
            let n = crate::text::nat_digits(v as nat);
            assert(is_digit(n[k]));
        }
    }
}

/// The name of a new archive, whose day text is a `%Y-%m-%d` date, is a
/// single plain path component, and its date holds no `.`.
proof fn lemma_new_name_plain(t: ArchiveType, date: Seq<char>, ts: i64)
    requires
        date_text(date),
    ensures
        is_plain_component(spec_archive_file_name(t, date, ts)),
        !date.contains('.'),
{
    reveal_strlit("docker-volumes");
    reveal_strlit("backup");
    reveal_strlit(".");
    reveal_strlit("..");
    assert(!date.contains('.')) by {
        if date.contains('.') {
            let k = choose|k: int| 0 <= k < date.len() && date[k] == '.';
            assert(date_text(date));
            assert('0' <= date[k] <= '9' || date[k] == '-' || date[k] == '+');
        }
    }
    assert(!date.contains('/')) by {
        if date.contains('/') {
            let k = choose|k: int| 0 <= k < date.len() && date[k] == '/';
            assert('0' <= date[k] <= '9' || date[k] == '-' || date[k] == '+');
        }
    }
    let d = spec_decimal(ts as int);
    lemma_decimal_without(ts, '/');
    let parts = seq![spec_type_name(t), date, d, archive_extension()];
    assert(!spec_type_name(t).contains('/')) by {
        if spec_type_name(t).contains('/') {
            let k = choose|k: int| 0 <= k < spec_type_name(t).len() && spec_type_name(t)[k] == '/';
        }
    }
    assert(!archive_extension().contains('/')) by {
        if archive_extension().contains('/') {
            let k = choose|k: int| 0 <= k < archive_extension().len() && archive_extension()[k] == '/';
        }
    }
    assert(!seq!['.'].contains('/')) by {
        if seq!['.'].contains('/') {
            let k = choose|k: int| 0 <= k < seq!['.'].len() && seq!['.'][k] == '/';
        }
    }
    assert forall|i: int| 0 <= i < parts.len() implies !(#[trigger] parts[i]).contains('/') by {
        if i == 0 {} else if i == 1 {} else if i == 2 {} else {}
    }
    lemma_join_without(parts, seq!['.'], '/');
    let name = spec_archive_file_name(t, date, ts);
    assert(parts.drop_last().len() == 3);
    assert(name == spec_join(parts.drop_last(), seq!['.']) + seq!['.'] + archive_extension());
    assert(name.len() >= 6);
    assert(name.last() == 'p');
    assert("."@.last() == '.');
    assert(".."@.last() == '.');
}

/// Where a new archive goes: its daily folder in the cache, and its path.
pub struct NewArchivePath {
    pub daily_folder: String,
    pub file_path: String,
}

/// The message of the error for a time that cannot be written as a date.
pub open spec fn bad_time_message() -> Seq<char> {
    "The time cannot be represented as a date."@
}

/// The path of a new archive of type `t` made at `now`:
/// `<cache_path>/day_<Y>_<m>_<d>/<type>.<Y>-<m>-<d>.<now>.backup`.
pub open spec fn spec_new_archive_path(config: AppConfig, t: ArchiveType, now: i64) -> Option<(Seq<char>, Seq<char>)> {
    match (spec_format_timestamp(now, "day_%Y_%m_%d"@), spec_format_timestamp(now, "%Y-%m-%d"@)) {
        (Some(day), Some(date)) => {
            let daily = spec_path_push(spec_archive_config(config, t).cache_path, day);
            Some((daily, spec_path_push(daily, spec_archive_file_name(t, date, now))))
        },
        _ => None,
    }
}

/// The daily folder (to be created) and the path of a new archive of type
/// `archive_type` made at `now`.
pub fn get_new_archive_path(config: &AppConfig, archive_type: &ArchiveType, now: i64) -> (res: Result<NewArchivePath>)
    ensures
        match spec_new_archive_path(*config, *archive_type, now) {
            None => fails_with_message(res, bad_time_message()),
            Some((daily, file)) => res matches Ok(p) && p.daily_folder@ == daily && p.file_path@ == file,
        },
        res matches Ok(p) ==> spec_read_metadata(p.file_path@)
            == Some(Some(ArchiveMetadataView { archive_type: *archive_type, archive_date: now, full_path: p.file_path@ })),
{
    let archive_config = get_archive_config(config, archive_type);
    let day = format_timestamp(now, "day_%Y_%m_%d");
    let date = format_timestamp(now, "%Y-%m-%d");
    match (day, date) {
        (Some(day), Some(date)) => {
            let daily_folder = path_push(archive_config.cache_path.as_str(), day.as_str());
            let name = archive_file_name(archive_type, date.as_str(), now);
            proof {
                lemma_new_name_plain(*archive_type, date@, now);
                lemma_archive_file_name_roundtrip(*archive_type, date@, now);
            }
            let file_path = path_push(daily_folder.as_str(), name.as_str());
            Ok(NewArchivePath { daily_folder, file_path })
        },
        _ => Err(CustomError::from_message("The time cannot be represented as a date.")),
    }
}

/// The archive types to look at: the given one, or all of them.
pub open spec fn spec_types_to_scan(archive_type: Option<ArchiveType>) -> Seq<ArchiveType> {
    match archive_type {
        Some(t) => seq![t],
        None => crate::archive_type::spec_all_types(),
    }
}

/// The archive types to look at: the given one, or all of them.
pub fn archive_types_to_scan(archive_type: Option<&ArchiveType>) -> (res: Vec<ArchiveType>)
    ensures
        res@ == spec_types_to_scan(match archive_type { Some(t) => Some(*t), None => None }),
{
    match archive_type {
        Some(t) => {
            let mut v = Vec::new();
            v.push(*t);
            assert(v@ =~= seq![*t]);
            v
        },
        None => ArchiveType::all(),
    }
}

/// The archives of type `t` among the files at `paths`, in order; `None`
/// when some path has no file name.
pub open spec fn spec_collect_archives(t: ArchiveType, paths: Seq<Seq<char>>) -> Option<Seq<ArchiveMetadataView>>
    decreases paths.len(),
{
    if paths.len() == 0 {
        Some(Seq::empty())
    } else {
        match spec_collect_archives(t, paths.drop_last()) {
            None => None,
            Some(found) => match spec_read_metadata(paths.last()) {
                None => None,
                Some(None) => Some(found),
                Some(Some(m)) => if m.archive_type == t { Some(found.push(m)) } else { Some(found) },
            },
        }
    }
}

/// The archives of type `archive_type` among the files at `paths` (the
/// contents of the daily folders of the type's cache), in order. A path
/// without a file name is an error.
pub fn collect_local_archives(archive_type: &ArchiveType, paths: &Vec<String>) -> (res: Result<Vec<ArchiveMetadata>>)
    ensures
        match spec_collect_archives(*archive_type, string_views(paths@)) {
            None => fails_with_message(res, no_file_name_message()),
            Some(found) => res matches Ok(v) && metadata_views(v@) == found,
        },
{
    let mut found: Vec<ArchiveMetadata> = Vec::new();
    let mut i: usize = 0;
    while i < paths.len()
        invariant
            i <= paths.len(),
            spec_collect_archives(*archive_type, string_views(paths@.take(i as int))) == Some(metadata_views(found@)),
        decreases paths.len() - i,
    {
        let ghost prefix = string_views(paths@.take(i as int));
        let ghost next = string_views(paths@.take(i + 1));
        assert(next.drop_last() =~= prefix);
        assert(next.last() == paths@[i as int]@);
        match read_metadata(paths[i].as_str()) {
            Err(e) => {
                proof {
                    lemma_collect_fails_after(*archive_type, string_views(paths@), i as int + 1);
                    assert(string_views(paths@).take(i + 1) =~= next);
                }
                return Err(e);
            },
            Ok(None) => {},
            Ok(Some(m)) => {
                if m.archive_type == *archive_type {
                    found.push(m);
                    assert(metadata_views(found@) =~= metadata_views(found@.drop_last()).push(found@.last()@));
                    assert(found@.drop_last() =~= found@.take(found@.len() - 1));
                }
            },
        }
        proof {
            assert(metadata_views(found@) == spec_collect_archives(*archive_type, next)->0);
        }
        i += 1;
    }
    assert(paths@.take(paths.len() as int) =~= paths@);
    Ok(found)
}

proof fn lemma_collect_fails_after(t: ArchiveType, paths: Seq<Seq<char>>, i: int)
    requires
        0 <= i <= paths.len(),
        spec_collect_archives(t, paths.take(i)) is None,
    ensures
        spec_collect_archives(t, paths) is None,
    decreases paths.len() - i,
{
    if i < paths.len() {
        assert(paths.take(i + 1).drop_last() =~= paths.take(i));
        lemma_collect_fails_after(t, paths, i + 1);
    } else {
        assert(paths.take(i) =~= paths);
    }
}

/// The local archives that are expired at `now`, each by the retention of
/// its type, in their order.
pub open spec fn spec_expired_local(config: AppConfig, archives: Seq<ArchiveMetadataView>, now: i64) -> Seq<ArchiveMetadataView>
    decreases archives.len(),
{
    if archives.len() == 0 {
        Seq::empty()
    } else {
        let m = archives.last();
        let rest = spec_expired_local(config, archives.drop_last(), now);
        if spec_is_expired(m.archive_date, now, spec_archive_config(config, m.archive_type).cache_expiry_days) {
            rest.push(m)
        } else {
            rest
        }
    }
}

/// Every archive type's retention is a valid number of days.
pub open spec fn retentions_valid(config: AppConfig) -> bool {
    forall|t: ArchiveType| spec_days_valid(#[trigger] spec_archive_config(config, t).cache_expiry_days)
}

/// Tells whether every archive type's retention is a valid number of days.
pub fn check_retentions(config: &AppConfig) -> (res: bool)
    ensures
        res == retentions_valid(*config),
{
    let c = get_archive_config(config, &ArchiveType::DockerVolumes);
    let ok = crate::dates::days_valid(c.cache_expiry_days);
    proof {
        if ok {
            assert forall|t: ArchiveType| spec_days_valid(#[trigger] spec_archive_config(*config, t).cache_expiry_days) by {
                match t { ArchiveType::DockerVolumes => {} }
            }
        } else {
            assert(!spec_days_valid(spec_archive_config(*config, ArchiveType::DockerVolumes).cache_expiry_days));
        }
    }
    ok
}

/// The retention of the type of every listed archive is a valid number of
/// days (the expiry is computed for each listed archive).
pub open spec fn local_retentions_valid(config: AppConfig, archives: Seq<ArchiveMetadataView>) -> bool {
    forall|i: int| 0 <= i < archives.len()
        ==> spec_days_valid(#[trigger] spec_archive_config(config, archives[i].archive_type).cache_expiry_days)
}

/// The local archives to delete at `now`: the expired ones, in order. (Each
/// deleted archive's daily folder is removed too once it is empty.)
pub fn clear_local_cache(config: &AppConfig, archives: &Vec<ArchiveMetadata>, now: i64) -> (res: Vec<ArchiveMetadata>)
    requires
        local_retentions_valid(*config, metadata_views(archives@)),
    ensures
        metadata_views(res@) == spec_expired_local(*config, metadata_views(archives@), now),
{
    let mut res: Vec<ArchiveMetadata> = Vec::new();
    let mut i: usize = 0;
    while i < archives.len()
        invariant
            i <= archives.len(),
            local_retentions_valid(*config, metadata_views(archives@)),
            metadata_views(res@) == spec_expired_local(*config, metadata_views(archives@.take(i as int)), now),
        decreases archives.len() - i,
    {
        let ghost prefix = metadata_views(archives@.take(i as int));
        let ghost next = metadata_views(archives@.take(i + 1));
        assert(next.drop_last() =~= prefix);
        assert(next.last() == archives@[i as int]@);
        let archive_config = get_archive_config(config, &archives[i].archive_type);
        assert(metadata_views(archives@)[i as int] == archives@[i as int]@);
        assert(spec_days_valid(spec_archive_config(*config, metadata_views(archives@)[i as int].archive_type).cache_expiry_days));
        if is_expired(archives[i].archive_date, now, archive_config.cache_expiry_days) {
            res.push(archives[i].copy());
            assert(metadata_views(res@) =~= metadata_views(res@.drop_last()).push(res@.last()@));
        }
        i += 1;
    }
    assert(archives@.take(archives.len() as int) =~= archives@);
    res
}

/// Deleting never touches an archive that is not expired, and keeps every
/// archive of the cache that is not expired: an archive is deleted exactly
/// when it is in the cache and expired.
pub proof fn lemma_clear_local_cache_exact(config: AppConfig, archives: Seq<ArchiveMetadataView>, now: i64, m: ArchiveMetadataView)
    ensures
        spec_expired_local(config, archives, now).contains(m) <==> (archives.contains(m)
            && spec_is_expired(m.archive_date, now, spec_archive_config(config, m.archive_type).cache_expiry_days)),
    decreases archives.len(),
{
    if archives.len() > 0 {
        lemma_clear_local_cache_exact(config, archives.drop_last(), now, m);
        let rest = spec_expired_local(config, archives.drop_last(), now);
        let last = archives.last();
        assert(archives =~= archives.drop_last().push(last));
        if archives.drop_last().contains(m) {
            let k = choose|k: int| 0 <= k < archives.drop_last().len() && archives.drop_last()[k] == m;
            assert(archives[k] == m);
        }
        if archives.contains(m) {
            let k = choose|k: int| 0 <= k < archives.len() && archives[k] == m;
            if k < archives.len() - 1 {
                assert(archives.drop_last()[k] == m);
            }
        }
        if rest.push(last).contains(m) {
            let k = choose|k: int| 0 <= k < rest.push(last).len() && rest.push(last)[k] == m;
            if k < rest.len() {
                assert(rest[k] == m);
            }
        }
        if rest.contains(m) {
            let k = choose|k: int| 0 <= k < rest.len() && rest[k] == m;
            assert(rest.push(last)[k] == m);
        }
        if m == last {
            assert(rest.push(last)[rest.len() as int] == m);
        }
    }
}


/// The contents of the daily folders of one archive type's cache.
pub struct LocalListing {
    pub archive_type: ArchiveType,
    pub paths: Vec<String>,
}

/// The archives found in the listings, listing after listing; `None` when
/// some path has no file name.
pub open spec fn spec_list_local(ls: Seq<LocalListing>) -> Option<Seq<ArchiveMetadataView>>
    decreases ls.len(),
{
    if ls.len() == 0 {
        Some(Seq::empty())
    } else {
        match spec_list_local(ls.drop_last()) {
            None => None,
            Some(acc) => match spec_collect_archives(ls.last().archive_type, string_views(ls.last().paths@)) {
                None => None,
                Some(found) => Some(acc + found),
            },
        }
    }
}

proof fn lemma_list_local_fails_after(ls: Seq<LocalListing>, i: int)
    requires
        0 <= i <= ls.len(),
        spec_list_local(ls.take(i)) is None,
    ensures
        spec_list_local(ls) is None,
    decreases ls.len() - i,
{
    if i < ls.len() {
        assert(ls.take(i + 1).drop_last() =~= ls.take(i));
        lemma_list_local_fails_after(ls, i + 1);
    } else {
        assert(ls.take(i) =~= ls);
    }
}

/// The local archives of the listed caches (one listing per archive type to
/// look at, see [`archive_types_to_scan`]), in order.
pub fn list_local_archives(listings: &Vec<LocalListing>) -> (res: Result<Vec<ArchiveMetadata>>)
    ensures
        match spec_list_local(listings@) {
            None => fails_with_message(res, no_file_name_message()),
            Some(found) => res matches Ok(v) && metadata_views(v@) == found,
        },
{
    let mut all: Vec<ArchiveMetadata> = Vec::new();
    let mut i: usize = 0;
    assert(metadata_views(all@) =~= Seq::<ArchiveMetadataView>::empty());
    while i < listings.len()
        invariant
            i <= listings.len(),
            spec_list_local(listings@.take(i as int)) == Some(metadata_views(all@)),
        decreases listings.len() - i,
    {
        assert(listings@.take(i + 1).drop_last() =~= listings@.take(i as int));
        assert(listings@.take(i + 1).last() == listings@[i as int]);
        match collect_local_archives(&listings[i].archive_type, &listings[i].paths) {
            Err(e) => {
                proof {
                    lemma_list_local_fails_after(listings@, i + 1);
                }
                return Err(e);
            },
            Ok(mut found) => {
                let ghost before = metadata_views(all@);
                let ghost more = metadata_views(found@);
                all.append(&mut found);
                assert(metadata_views(all@) =~= before + more);
            },
        }
        i += 1;
    }
    assert(listings@.take(listings.len() as int) =~= listings@);
    Ok(all)
}

} // verus!

verus! {

/// The work that a create script hands to the archive procedure of the type.
pub enum CreateHook {
    /// Fill the directory `work_path` with the files of the configuration
    /// `config_name`.
    Fill { config_name: String, work_path: String },
}

impl View for CreateHook {
    type V = (Seq<char>, Seq<char>);

    open spec fn view(&self) -> (Seq<char>, Seq<char>) {
        match self {
            CreateHook::Fill { config_name, work_path } => (config_name@, work_path@),
        }
    }
}

/// The script that makes the archive of `options` in the work directory
/// `<temp_path>/<work_id>`: the work directories are made, the archive
/// procedure fills the uncompressed one, the finishing commands compress,
/// (encrypt) and move the archive; the work directory is removed last,
/// whatever happened.
pub open spec fn create_script_shape(script: Script<CreateHook>, config: AppConfig, options: CreateArchiveOptions, work_id: Seq<char>) -> bool {
    let work = spec_path_push(spec_archive_config(config, options.archive_type).temp_path, work_id);
    &&& !script.keep_going
    &&& step_views(script.body@) == shells::<(Seq<char>, Seq<char>)>(seq![cmd_make_dir(work), cmd_make_dir(uncompressed_path(work))])
        + seq![StepView::Hook((spec_type_name(options.archive_type), uncompressed_path(work)))]
        + shells::<(Seq<char>, Seq<char>)>(spec_finish_commands(config, options, work))
    &&& step_views(script.cleanup@) == shells::<(Seq<char>, Seq<char>)>(seq![cmd_remove_tree(work)])
}

/// Makes the archive of `options`, handing each step of its script (see
/// [`create_script_shape`]) to `perform`: the archive procedure runs once,
/// after the work directories were made and before compression, and not at
/// all when making them failed; the work directory is removed once, after
/// the body, whether it failed or not; the body's error wins over the
/// cleanup's; and when every step succeeded the result is what
/// [`finish_create_archive`] gives.
pub fn run_create_archive<F: Fn(&Step<CreateHook>) -> Result<()>>(config: &AppConfig, options: &CreateArchiveOptions, perform: F) -> (res: Result<Option<ArchiveMetadata>>)
    requires
        forall|st: Step<CreateHook>| call_requires(perform, (&st,)),
    ensures
        exists|work_id: Seq<char>, script: Script<CreateHook>, value: Result<Option<ArchiveMetadata>>|
            #![trigger create_script_shape(script, *config, *options, work_id), script_outcome(script, perform, value, res)]
            work_id.len() == 36 && create_script_shape(script, *config, *options, work_id)
            && finish_outcome(*options, value) && script_outcome(script, perform, value, res),
{
    let plan = create_archive(config, options);
    let ghost work_id = choose|w: Seq<char>| #![trigger spec_path_push(spec_archive_config(*config, options.archive_type).temp_path, w)]
        w.len() == 36 && spec_create_plan(plan, *config, *options, w);
    let mut body: Vec<Step<CreateHook>> = shell_steps(&plan.prepare);
    let ghost prepare = step_views(body@);
    body.push(Step::Hook(CreateHook::Fill { config_name: plan.config_name.clone(), work_path: plan.uncompressed.clone() }));
    assert(step_views(body@) =~= prepare.push(body@.last()@));
    let mut finish: Vec<Step<CreateHook>> = shell_steps(&plan.finish);
    let ghost middle = step_views(body@);
    let ghost tail = step_views(finish@);
    body.append(&mut finish);
    assert(step_views(body@) =~= middle + tail);
    let cleanup: Vec<Step<CreateHook>> = shell_steps(&plan.cleanup);
    let script = Script { body, cleanup, keep_going: false };
    assert(create_script_shape(script, *config, *options, work_id)) by {
        let work = plan.work_path@;
        assert(step_views(script.body@) =~= shells::<(Seq<char>, Seq<char>)>(seq![cmd_make_dir(work), cmd_make_dir(uncompressed_path(work))])
            + seq![StepView::Hook((spec_type_name(options.archive_type), uncompressed_path(work)))]
            + shells::<(Seq<char>, Seq<char>)>(spec_finish_commands(*config, *options, work)));
        assert(step_views(script.cleanup@) =~= shells::<(Seq<char>, Seq<char>)>(seq![cmd_remove_tree(work)]));
    }
    assert forall|k: int| 0 <= k < script.body@.len() implies call_requires(perform, (&#[trigger] script.body@[k],)) by {
        let st = script.body@[k];
        assert(call_requires(perform, (&st,)));
    }
    assert forall|k: int| 0 <= k < script.cleanup@.len() implies call_requires(perform, (&#[trigger] script.cleanup@[k],)) by {
        let st = script.cleanup@[k];
        assert(call_requires(perform, (&st,)));
    }
    let value = finish_create_archive(options);
    let ghost v = value;
    let res = run_script(&script, value, &perform);
    assert(script_outcome(script, perform, v, res));
    res
}

/// The work that a restore script hands to the restore procedure of the
/// type.
pub enum RestoreHook {
    /// Restore the configuration `config_name` from the compressed archive
    /// `compressed`, with `work_path` as the work directory.
    Restore { config_name: String, work_path: String, compressed: String },
}

impl View for RestoreHook {
    type V = (Seq<char>, Seq<char>, Seq<char>);

    open spec fn view(&self) -> (Seq<char>, Seq<char>, Seq<char>) {
        match self {
            RestoreHook::Restore { config_name, work_path, compressed } => (config_name@, work_path@, compressed@),
        }
    }
}

/// The script that restores the archive of `options` through the work
/// directory `<temp_path>/<work_id>`: the work directory is made, the
/// archive file is copied (or decrypted) into the compressed archive there
/// (the archive file itself is only read), the restore procedure gets it;
/// the work directory is removed last, whatever happened.
pub open spec fn restore_script_shape(script: Script<RestoreHook>, config: AppConfig, options: RestoreArchiveOptions, work_id: Seq<char>) -> bool {
    let work = spec_path_push(spec_archive_config(config, options.archive_type).temp_path, work_id);
    &&& !script.keep_going
    &&& step_views(script.body@) == shells::<(Seq<char>, Seq<char>, Seq<char>)>(seq![
            cmd_make_dir(work),
            spec_open_command(options.no_decryption, options.file_path@, compressed_path(work)),
        ]) + seq![StepView::Hook((spec_type_name(options.archive_type), work, compressed_path(work)))]
    &&& step_views(script.cleanup@) == shells::<(Seq<char>, Seq<char>, Seq<char>)>(seq![cmd_remove_tree(work)])
}

/// Restores the archive of `options`, handing each step of its script (see
/// [`restore_script_shape`]) to `perform`: the restore procedure runs once,
/// on the compressed archive, after it was made; the work directory is
/// removed afterwards; the result is the restore procedure's, unless only
/// the cleanup failed.
pub fn run_restore_archive<F: Fn(&Step<RestoreHook>) -> Result<()>>(config: &AppConfig, options: &RestoreArchiveOptions, perform: F) -> (res: Result<()>)
    requires
        forall|st: Step<RestoreHook>| call_requires(perform, (&st,)),
    ensures
        exists|work_id: Seq<char>, script: Script<RestoreHook>|
            #![trigger restore_script_shape(script, *config, *options, work_id), script_outcome(script, perform, Ok::<(), CustomError>(()), res)]
            work_id.len() == 36 && restore_script_shape(script, *config, *options, work_id)
            && script_outcome(script, perform, Ok::<(), CustomError>(()), res),
{
    let plan = restore_archive(config, options);
    let ghost work_id = choose|w: Seq<char>| #![trigger spec_path_push(spec_archive_config(*config, options.archive_type).temp_path, w)]
        w.len() == 36 && spec_restore_plan(plan, *config, *options, w);
    let mut body: Vec<Step<RestoreHook>> = shell_steps(&plan.prepare);
    let ghost prepare = step_views(body@);
    body.push(Step::Hook(RestoreHook::Restore {
        config_name: plan.config_name.clone(),
        work_path: plan.work_path.clone(),
        compressed: plan.compressed.clone(),
    }));
    assert(step_views(body@) =~= prepare.push(body@.last()@));
    let cleanup: Vec<Step<RestoreHook>> = shell_steps(&plan.cleanup);
    let script = Script { body, cleanup, keep_going: false };
    assert(restore_script_shape(script, *config, *options, work_id)) by {
        let work = plan.work_path@;
        assert(step_views(script.body@) =~= shells::<(Seq<char>, Seq<char>, Seq<char>)>(seq![
            cmd_make_dir(work),
            spec_open_command(options.no_decryption, options.file_path@, compressed_path(work)),
        ]) + seq![StepView::Hook((spec_type_name(options.archive_type), work, compressed_path(work)))]);
        assert(step_views(script.cleanup@) =~= shells::<(Seq<char>, Seq<char>, Seq<char>)>(seq![cmd_remove_tree(work)]));
    }
    assert forall|k: int| 0 <= k < script.body@.len() implies call_requires(perform, (&#[trigger] script.body@[k],)) by {
        let st = script.body@[k];
        assert(call_requires(perform, (&st,)));
    }
    assert forall|k: int| 0 <= k < script.cleanup@.len() implies call_requires(perform, (&#[trigger] script.cleanup@[k],)) by {
        let st = script.cleanup@[k];
        assert(call_requires(perform, (&st,)));
    }
    let res = run_script(&script, Ok(()), &perform);
    res
}

/// A script made of shell commands only.
pub struct NoHook;

impl View for NoHook {
    type V = ();

    open spec fn view(&self) -> () {
        ()
    }
}

/// The script that unpacks the archive of `options` through the work
/// directory `<temp_path>/<work_id>`: the commands of
/// [`spec_unpack_plan`], then the removal of the work directory, whatever
/// happened.
pub open spec fn unpack_script_shape(script: Script<NoHook>, config: AppConfig, options: UnpackArchiveOptions, work_id: Seq<char>) -> bool {
    let work = spec_path_push(spec_archive_config(config, options.archive_type).temp_path, work_id);
    &&& !script.keep_going
    &&& step_views(script.body@) == shells::<()>(seq![
        cmd_make_dir(work),
        spec_open_command(options.no_decryption, options.file_path@, compressed_path(work)),
        cmd_extract(options.out_path@, compressed_path(work)),
    ])
    &&& step_views(script.cleanup@) == shells::<()>(seq![cmd_remove_tree(work)])
}

/// Unpacks the archive of `options`, handing each command of its script
/// (see [`unpack_script_shape`]) to `perform`.
pub fn run_unpack_archive<F: Fn(&Step<NoHook>) -> Result<()>>(config: &AppConfig, options: &UnpackArchiveOptions, perform: F) -> (res: Result<()>)
    requires
        forall|st: Step<NoHook>| call_requires(perform, (&st,)),
    ensures
        exists|work_id: Seq<char>, script: Script<NoHook>|
            #![trigger unpack_script_shape(script, *config, *options, work_id), script_outcome(script, perform, Ok::<(), CustomError>(()), res)]
            work_id.len() == 36 && unpack_script_shape(script, *config, *options, work_id)
            && script_outcome(script, perform, Ok::<(), CustomError>(()), res),
{
    let plan = unpack_archive(config, options);
    let ghost work_id = choose|w: Seq<char>| #![trigger spec_path_push(spec_archive_config(*config, options.archive_type).temp_path, w)]
        w.len() == 36 && spec_unpack_plan(plan, *config, *options, w);
    let body: Vec<Step<NoHook>> = shell_steps(&plan.commands);
    let cleanup: Vec<Step<NoHook>> = shell_steps(&plan.cleanup);
    let script = Script { body, cleanup, keep_going: false };
    assert(unpack_script_shape(script, *config, *options, work_id)) by {
        let work = plan.work_path@;
        assert(step_views(script.body@) =~= shells::<()>(seq![
            cmd_make_dir(work),
            spec_open_command(options.no_decryption, options.file_path@, compressed_path(work)),
            cmd_extract(options.out_path@, compressed_path(work)),
        ]));
        assert(step_views(script.cleanup@) =~= shells::<()>(seq![cmd_remove_tree(work)]));
    }
    assert forall|k: int| 0 <= k < script.body@.len() implies call_requires(perform, (&#[trigger] script.body@[k],)) by {
        let st = script.body@[k];
        assert(call_requires(perform, (&st,)));
    }
    assert forall|k: int| 0 <= k < script.cleanup@.len() implies call_requires(perform, (&#[trigger] script.cleanup@[k],)) by {
        let st = script.cleanup@[k];
        assert(call_requires(perform, (&st,)));
    }
    run_script(&script, Ok(()), &perform)
}

} // verus!
