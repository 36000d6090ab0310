//! The layout of the write directory: one directory per set, the index file, one lock file
//! per resource, and the staging places where downloads are put together before they are
//! moved into place.
use crate::config::Config;
use crate::error::Error;
use vstd::prelude::*;

verus! {

/// The resource whose lock guards the index file.
pub const INDEX_RESOURCE: &'static str = "pdfsets";

/// The name of the index file in the write directory.
pub const INDEX_FILE: &'static str = "pdfsets.index";

/// The name of LHAPDF's settings file in the write directory.
pub const SETTINGS_FILE: &'static str = "lhapdf.conf";

/// The name of the lock file of `resource`.
pub open spec fn lock_file(resource: Seq<char>) -> Seq<char> {
    resource + ".lock"@
}

/// The name of the staging place of the file or directory `name`.
pub open spec fn staging(name: Seq<char>) -> Seq<char> {
    name + ".partial"@
}

/// The name of the lock file of `resource`, a set name or [`INDEX_RESOURCE`].
pub fn lock_file_name(resource: &str) -> (r: String)
    ensures
        r@ == lock_file(resource@),
{
    let mut file = String::from_str(resource);
    file.append(".lock");
    file
}

/// The name of the place where the file or directory `name` is put together before it is
/// renamed to `name`, so that no reader sees it half written.
pub fn staging_name(name: &str) -> (r: String)
    ensures
        r@ == staging(name@),
{
    let mut file = String::from_str(name);
    file.append(".partial");
    file
}

/// Whether `name` can name a set: it holds no path separator.
pub open spec fn is_set_name(name: Seq<char>) -> bool {
    forall|i: int| 0 <= i < name.len() ==> name[i] != '/'
}

/// Whether `name` can name a set: it holds no path separator.
pub fn is_valid_set_name(name: &str) -> (r: bool)
    ensures
        r == is_set_name(name@),
{
    let n = name.unicode_len();
    let mut i: usize = 0;
    while i < n
        invariant
            n == name@.len(),
            i <= n,
            forall|j: int| 0 <= j < i ==> name@[j] != '/',
        decreases n - i,
    {
        if name.get_char(i) == '/' {
            return false;
        }
        i = i + 1;
    }
    true
}

/// The directory that holds the lock files and takes new data: the write directory. In
/// read-only mode nothing is locked and nothing can be acquired.
pub fn lock_dir(config: &Config) -> (r: Result<&str, Error>)
    ensures
        r is Ok <==> config.writable(),
        r matches Ok(dir) ==> dir@ == config.lhapdf_data_path_write@,
        r matches Err(e) ==> e == Error::ReadOnly,
{
    match config.lhapdf_data_path_write() {
        Some(dir) => Ok(dir),
        None => Err(Error::ReadOnly),
    }
}

} // verus!
