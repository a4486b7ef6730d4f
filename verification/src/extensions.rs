//! Small extension traits on strings, paths and options.

use vstd::prelude::*;
use crate::errors::{CustomError, Result, is_error_message};
use crate::text::to_chars;
use vstd::string::StringSliceAdditionalSpecFns;

verus! {

/// The largest index at which `c` occurs in `s`, if any.
pub open spec fn last_occurrence(s: Seq<char>, c: char) -> Option<int>
    decreases s.len(),
{
    if s.len() == 0 {
        None
    } else if s.last() == c {
        Some(s.len() - 1)
    } else {
        last_occurrence(s.drop_last(), c)
    }
}

/// What `last_index_of` returns for a string whose characters are `s` and
/// whose UTF-8 encoding is `byte_len` bytes long: it walks the characters
/// from the end with a counter that starts at `byte_len - 1` and goes down by
/// one per character (never below 0), and reports the counter at the first
/// match. For an ASCII string this is the index of the last occurrence.
pub open spec fn spec_last_index_of(s: Seq<char>, byte_len: int, c: char) -> Option<int> {
    match last_occurrence(s, c) {
        None => None,
        Some(j) => Some(if byte_len - s.len() + j > 0 { byte_len - s.len() + j } else { 0 }),
    }
}

proof fn lemma_last_occurrence_facts(s: Seq<char>, c: char)
    ensures
        last_occurrence(s, c) matches Some(j) ==> (0 <= j < s.len() && s[j] == c
            && forall|k: int| j < k < s.len() ==> s[k] != c),
        last_occurrence(s, c) is None ==> forall|k: int| 0 <= k < s.len() ==> s[k] != c,
    decreases s.len(),
{
    if s.len() > 0 {
        lemma_last_occurrence_facts(s.drop_last(), c);
        assert forall|k: int| 0 <= k < s.len() - 1 implies s.drop_last()[k] == s[k] by {}
    }
}

/// Searching a string backwards.
pub trait StrExtensions: View<V = Seq<char>> {
    /// The position of the last `c`, counted as described at
    /// [`spec_last_index_of`]. The text must not be empty.
    fn last_index_of(&self, c: char) -> Option<usize>
        requires
            self@.len() > 0,
    ;
}

impl StrExtensions for &str {
    fn last_index_of(&self, c: char) -> (res: Option<usize>)
        ensures
            match spec_last_index_of(self@, vstd::utf8::encode_utf8(self@).len() as int, c) {
                None => res is None,
                Some(i) => res == Some(i as usize),
            },
    {
        let text: &str = *self;
        let chars = to_chars(text);
        let byte_len = text.as_bytes().len();
        proof {
            crate::text::lemma_utf8_len_at_least_chars(self@);
        }
        let mut i: usize = byte_len - 1;
        let mut k: usize = chars.len();
        proof {
            lemma_last_occurrence_facts(self@, c);
        }
        while k > 0
            invariant
                chars@ == self@,
                k <= chars.len(),
                byte_len == vstd::utf8::encode_utf8(self@).len(),
                byte_len >= chars.len() > 0,
                i == (if byte_len - chars.len() + k - 1 > 0 { byte_len - chars.len() + k - 1 } else { 0 }),
                forall|m: int| k <= m < chars.len() ==> chars@[m] != c,
                last_occurrence(self@, c) matches Some(j) ==> (0 <= j < self@.len() && self@[j] == c
                    && forall|m: int| j < m < self@.len() ==> self@[m] != c),
                last_occurrence(self@, c) is None ==> forall|m: int| 0 <= m < self@.len() ==> self@[m] != c,
            decreases k,
        {
            let x = chars[k - 1];
            if x == c {
                return Some(i);
            }
            if i > 0 {
                i -= 1;
            }
            k -= 1;
        }
        None
    }
}

/// `std::path::Path::file_name`, on a path held as text.
pub uninterp spec fn spec_path_file_name(path: Seq<char>) -> Option<Seq<char>>;

/// `std::path::Path::file_stem`, on a path held as text.
pub uninterp spec fn spec_path_file_stem(path: Seq<char>) -> Option<Seq<char>>;

/// `std::path::Path::extension`, on a path held as text.
pub uninterp spec fn spec_path_extension(path: Seq<char>) -> Option<Seq<char>>;

/// The path that `std::path::PathBuf::pop` leaves (the parent, or the path
/// itself when it has none).
pub uninterp spec fn spec_path_pop(path: Seq<char>) -> Seq<char>;

/// The path that `std::path::PathBuf::push` makes of `base` and `part`.
pub uninterp spec fn spec_path_push(base: Seq<char>, part: Seq<char>) -> Seq<char>;

/// The path that `std::path::PathBuf::set_extension` makes of `path` and `ext`.
pub uninterp spec fn spec_path_set_extension(path: Seq<char>, ext: Seq<char>) -> Seq<char>;

/// `Path::file_name`: the final component of `path`, unless the path ends in
/// `..` or has no component. The component of a `&str` path is valid UTF-8,
/// so the conversion back to text is one for one.
#[verifier::external_body]
fn path_file_name(path: &str) -> (res: Option<String>)
    ensures
        match spec_path_file_name(path@) {
            None => res is None,
            Some(n) => res matches Some(r) && r@ == n,
        },
{
    std::path::Path::new(path).file_name().and_then(|n| n.to_str()).map(|n| n.to_string())
}

/// `Path::file_stem`: the file name without its last extension.
#[verifier::external_body]
fn path_file_stem(path: &str) -> (res: Option<String>)
    ensures
        match spec_path_file_stem(path@) {
            None => res is None,
            Some(n) => res matches Some(r) && r@ == n,
        },
{
    std::path::Path::new(path).file_stem().and_then(|n| n.to_str()).map(|n| n.to_string())
}

/// `Path::extension`: the text after the last `.` of the file name.
#[verifier::external_body]
fn path_extension(path: &str) -> (res: Option<String>)
    ensures
        match spec_path_extension(path@) {
            None => res is None,
            Some(n) => res matches Some(r) && r@ == n,
        },
{
    std::path::Path::new(path).extension().and_then(|n| n.to_str()).map(|n| n.to_string())
}

/// `PathBuf::pop`: truncates the path to its parent.
#[verifier::external_body]
fn path_pop(path: &str) -> (res: String)
    ensures
        res@ == spec_path_pop(path@),
{
    let mut copy = std::path::PathBuf::from(path);
    copy.pop();
    copy.to_str().map(|s| s.to_string()).unwrap_or_default()
}

/// A single relative path component other than `.` and `..`: nonempty and
/// without a `/`.
pub open spec fn is_plain_component(p: Seq<char>) -> bool {
    &&& p.len() > 0
    &&& !p.contains('/')
    &&& p != "."@
    &&& p != ".."@
}

/// `PathBuf::push`: extends `base` with `part` (a separator is added when
/// needed; an absolute `part` replaces `base`). Pushing a single plain
/// component makes it the file name of the result.
#[verifier::external_body]
pub(crate) fn path_push(base: &str, part: &str) -> (res: String)
    ensures
        res@ == spec_path_push(base@, part@),
        is_plain_component(part@) ==> spec_path_file_name(res@) == Some(part@),
{
    let mut copy = std::path::PathBuf::from(base);
    copy.push(part);
    copy.to_str().map(|s| s.to_string()).unwrap_or_default()
}

/// `PathBuf::set_extension`: replaces (or adds) the extension of the file
/// name. It panics on an extension that holds a path separator (`/`), which
/// `requires` leaves out.
#[verifier::external_body]
pub(crate) fn path_set_extension(path: &str, ext: &str) -> (res: String)
    requires
        !ext@.contains('/'),
    ensures
        res@ == spec_path_set_extension(path@, ext@),
{
    let mut copy = std::path::PathBuf::from(path);
    copy.set_extension(ext);
    copy.to_str().map(|s| s.to_string()).unwrap_or_default()
}

/// Text views of the parts of a path.
pub trait PathExtensions {
    /// The path as text.
    fn get_as_string(&self) -> Result<String>;

    /// The extension of the file name.
    fn extension_as_string(&self) -> Result<String>;

    /// The file name without its extension.
    fn file_stem_as_string(&self) -> Result<String>;

    /// The file name.
    fn file_name_as_string(&self) -> Result<String>;

    /// The parent directory, as text.
    fn get_directory_as_string(&self) -> Result<String>;

    /// The parent directory.
    fn get_directory(&self) -> String;

    /// The path extended by `p`.
    fn combine_with(&self, p: &str) -> String;
}

/// Maps a missing path part to the error with the message `msg`.
pub open spec fn part_or_error(part: Option<Seq<char>>, res: Result<String>, msg: Seq<char>) -> bool {
    match part {
        None => res matches Err(e) && is_error_message(e, msg),
        Some(p) => res matches Ok(s) && s@ == p,
    }
}

impl PathExtensions for str {
    fn get_as_string(&self) -> (res: Result<String>)
        ensures
            res matches Ok(s) && s@ == self@,
    {
        Ok(self.to_owned())
    }

    fn extension_as_string(&self) -> (res: Result<String>)
        ensures
            part_or_error(spec_path_extension(self@), res, "The file does not have an extension"@),
    {
        match path_extension(self) {
            Some(x) => Ok(x),
            None => Err(CustomError::from_message("The file does not have an extension")),
        }
    }

    fn file_stem_as_string(&self) -> (res: Result<String>)
        ensures
            part_or_error(spec_path_file_stem(self@), res, "The file does not have a `file_stem`."@),
    {
        match path_file_stem(self) {
            Some(x) => Ok(x),
            None => Err(CustomError::from_message("The file does not have a `file_stem`.")),
        }
    }

    fn file_name_as_string(&self) -> (res: Result<String>)
        ensures
            part_or_error(spec_path_file_name(self@), res, "The file does not have a `file_stem`."@),
    {
        match path_file_name(self) {
            Some(x) => Ok(x),
            None => Err(CustomError::from_message("The file does not have a `file_stem`.")),
        }
    }

    fn get_directory_as_string(&self) -> (res: Result<String>)
        ensures
            res matches Ok(s) && s@ == spec_path_pop(self@),
    {
        Ok(path_pop(self))
    }

    fn get_directory(&self) -> (res: String)
        ensures
            res@ == spec_path_pop(self@),
    {
        path_pop(self)
    }

    fn combine_with(&self, p: &str) -> (res: String)
        ensures
            res@ == spec_path_push(self@, p@),
    {
        path_push(self, p)
    }
}

/// Removing layers of `Option`.
pub trait OptionFlatten<T> {
    /// The innermost value, if every layer holds one.
    fn flatten(self) -> Option<T>;
}

impl<T> OptionFlatten<T> for Option<Option<T>> {
    fn flatten(self) -> (res: Option<T>)
        ensures
            res == (match self { Some(Some(v)) => Some(v), _ => None::<T> }),
    {
        match self {
            None => None,
            Some(v) => v,
        }
    }
}

/// Mapping an option by reference.
pub trait OptionBorrow<T> {
    /// `f` applied to the value, if there is one.
    fn map<U, F: FnOnce(&T) -> U>(&self, f: F) -> Option<U>
        requires
            forall|x: &T| call_requires(f, (x,)),
    ;

    /// `f` applied to the value, if there is one, with its result kept as is.
    fn map_result<U, F: FnOnce(&T) -> Result<U>>(&self, f: F) -> Option<Result<U>>
        requires
            forall|x: &T| call_requires(f, (x,)),
    ;
}

impl<T> OptionBorrow<T> for Option<T> {
    fn map<U, F: FnOnce(&T) -> U>(&self, f: F) -> (res: Option<U>)
        ensures
            match *self {
                None => res is None,
                Some(x) => res matches Some(u) && call_ensures(f, (&x,), u),
            },
    {
        match self {
            Some(x) => Some(f(x)),
            None => None,
        }
    }

    fn map_result<U, F: FnOnce(&T) -> Result<U>>(&self, f: F) -> (res: Option<Result<U>>)
        ensures
            match *self {
                None => res is None,
                Some(x) => res matches Some(u) && call_ensures(f, (&x,), u),
            },
    {
        match self {
            Some(x) => Some(f(x)),
            None => None,
        }
    }
}

/// Turning a missing value into an error.
pub trait OptionErrorExtensions<T> {
    /// The value, or the internal error with the message `message`.
    fn or_error(self, message: &str) -> Result<T>;
}

impl<T> OptionErrorExtensions<T> for Option<T> {
    fn or_error(self, message: &str) -> (res: Result<T>)
        ensures
            match self {
                Some(v) => res == Ok::<T, CustomError>(v),
                None => res matches Err(e) && is_error_message(e, message@),
            },
    {
        match self {
            Some(v) => Ok(v),
            None => Err(CustomError::from_message(message)),
        }
    }
}

} // verus!

verus! {

/// For an ASCII text (one byte per character) `last_index_of` gives the
/// index of the last occurrence of the character.
pub proof fn lemma_last_index_of_ascii(s: Seq<char>, c: char)
    ensures
        spec_last_index_of(s, s.len() as int, c) == last_occurrence(s, c),
{
    lemma_last_occurrence_facts(s, c);
}

} // verus!
