use vstd::prelude::*;
use vstd::string::StrSliceExecFns;

use crate::paths::{base_of, dir_of, file_name, with_file_name};

verus! {

/// Outcome of the atomic rename primitive, as a typed error.
#[derive(Debug)]
pub enum RenameError {
    /// The source vanished between enumeration and rename (`ENOENT`).
    NotFound,
    /// Access to source or destination was denied (`EACCES`).
    PermissionDenied,
    /// Any other errno.
    Other(i32),
}

/// Rename a file with the platform's atomic rename primitive, so that an
/// observer sees either the source or the destination name, never both.
///
/// Relies on nix::fcntl::renameat (rename(2)); whether it succeeds depends on
/// what is on disk, so nothing is promised of the outcome.
#[verifier::external_body]
pub fn rename(source: &String, destination: &String) -> (r: Result<(), RenameError>) {
    match nix::fcntl::renameat(
        nix::fcntl::AT_FDCWD,
        std::path::Path::new(source.as_str()),
        nix::fcntl::AT_FDCWD,
        std::path::Path::new(destination.as_str()),
    ) {
        Ok(()) => Ok(()),
        Err(nix::errno::Errno::ENOENT) => Err(RenameError::NotFound),
        Err(nix::errno::Errno::EACCES) => Err(RenameError::PermissionDenied),
        Err(e) => Err(RenameError::Other(e as i32)),
    }
}

/// The name of the host this process runs on, when the platform can tell.
///
/// Relies on nix::unistd::gethostname; the result depends on the machine, so
/// nothing is promised of it.
#[verifier::external_body]
pub fn hostname() -> (r: Option<String>) {
    match nix::unistd::gethostname() {
        Ok(h) => h.into_string().ok(),
        Err(_) => None,
    }
}

/// Strip `prefix` from the front of `source` and append the remainder to
/// `base`.
pub fn strip_prefix(source: String, prefix: String, base: String) -> (r: String)
    requires
        prefix@.len() <= source@.len(),
    ensures
        r@ == base@ + source@.skip(prefix@.len() as int),
{
    let plen = prefix.as_str().unicode_len();
    let slen = source.as_str().unicode_len();
    let mut r = base;
    r.append(source.as_str().substring_char(plen, slen));
    r
}

/// Replace `old_prefix` at the front of `source` with `new_prefix`.
pub fn reprefix(source: &String, old_prefix: &String, new_prefix: String) -> (r: String)
    requires
        old_prefix@.len() <= source@.len(),
    ensures
        r@ == new_prefix@ + source@.skip(old_prefix@.len() as int),
{
    let plen = old_prefix.as_str().unicode_len();
    let slen = source.as_str().unicode_len();
    let mut r = new_prefix;
    r.append(source.as_str().substring_char(plen, slen));
    r
}

/// Insert `host` in front of the file name of `path`, keeping the directory.
pub fn prepend_hostname_to(path: &str, host: &str) -> (r: String)
    ensures
        r@ == dir_of(path@) + host@ + base_of(path@),
{
    let mut joined = String::from_str(host);
    joined.append(file_name(path).as_str());
    with_file_name(path, joined.as_str())
}

/// The file name a host-specific database path is built from: the path's own
/// file name, or the default store name where the path has none.
pub open spec fn spec_db_file_name(p: Seq<char>) -> Seq<char> {
    if base_of(p).len() == 0 {
        "satan.db"@
    } else {
        base_of(p)
    }
}

/// Make `input` host specific by prepending this machine's host name to its
/// file name (to the default store name where the path has no file name);
/// the prepended host comes back as a ghost value. Fails only when the host
/// name cannot be read, as a database configuration error, leaving the path
/// untouched.
pub fn prepend_hostname(input: &mut String) -> (r: (
    Result<(), crate::config::ConfigErrors>,
    Ghost<Seq<char>>,
))
    ensures
        r.0 is Ok ==> final(input)@ == dir_of(old(input)@) + r.1@ + spec_db_file_name(
            old(input)@,
        ),
        r.0 is Err ==> final(input)@ == old(input)@,
        r.0 matches Err(e) ==> e matches crate::config::ConfigErrors::DatabaseError(ce) && ce
            is ConfigError,
{
    match hostname() {
        Some(host) => {
            let ghost h = host@;
            let name = file_name(input.as_str());
            let base = if name.as_str().unicode_len() == 0 {
                String::from_str("satan.db")
            } else {
                name
            };
            let mut joined = host;
            joined.append(base.as_str());
            let renamed = with_file_name(input.as_str(), joined.as_str());
            proof {
                assert(renamed@ =~= dir_of(input@) + h + spec_db_file_name(input@));
            }
            *input = renamed;
            (Ok(()), Ghost(h))
        },
        None => (
            Err(
                crate::config::ConfigErrors::DatabaseError(
                    crate::database::ConnectionError::ConfigError,
                ),
            ),
            Ghost(Seq::empty()),
        ),
    }
}

} // verus!
