//! Filesystem primitives.
//!
//! All filesystem work goes through these trusted wrappers. What the disk
//! holds, and whether a primitive succeeds, is outside the reach of
//! verification, so none of them promises success: callers state what holds
//! of every outcome.

use vstd::prelude::*;

verus! {

/// The error type of the filesystem primitives.
#[verifier::external_type_specification]
#[verifier::external_body]
pub struct ExFsError(fs_extra::error::Error);

/// Whether a path exists on disk right now. Relies on
/// `std::path::Path::exists`.
#[verifier::external_body]
pub fn path_exists(p: &str) -> bool {
    std::path::Path::new(p).exists()
}

/// Whether a path names an existing file. Relies on
/// `std::path::Path::is_file`.
#[verifier::external_body]
pub fn path_is_file(p: &str) -> bool {
    std::path::Path::new(p).is_file()
}

/// Whether a path names an existing directory. Relies on
/// `std::path::Path::is_dir`.
#[verifier::external_body]
pub fn path_is_dir(p: &str) -> bool {
    std::path::Path::new(p).is_dir()
}

/// Remove a file; removing an absent one succeeds without effect. Relies on
/// `fs_extra::file::remove`.
#[verifier::external_body]
pub fn remove_file(p: &str) -> Result<(), fs_extra::error::Error> {
    fs_extra::file::remove(p)
}

/// Remove a directory tree; removing an absent one succeeds without effect.
/// Relies on `fs_extra::dir::remove`.
#[verifier::external_body]
pub fn remove_dir(p: &str) -> Result<(), fs_extra::error::Error> {
    fs_extra::dir::remove(p)
}

/// Move a file to the path `to`. With `overwrite`, an existing destination
/// is replaced; without it, an existing destination is an error. Relies on
/// `fs_extra::file::move_file`.
#[verifier::external_body]
pub fn move_file(from: &str, to: &str, overwrite: bool) -> Result<(), fs_extra::error::Error> {
    let options = fs_extra::file::CopyOptions::new().overwrite(overwrite);
    fs_extra::file::move_file(from, to, &options)?;
    Ok(())
}

/// Move a directory tree so that its content stands at the path `to`. Relies
/// on `fs_extra::dir::move_dir` with `content_only`: the source's content is
/// placed at `to` itself, and files there are replaced only when `overwrite`
/// is set.
#[verifier::external_body]
pub fn move_dir(from: &str, to: &str, overwrite: bool) -> Result<(), fs_extra::error::Error> {
    let options = fs_extra::dir::CopyOptions::new().overwrite(overwrite).content_only(true);
    fs_extra::dir::move_dir(from, to, &options)?;
    Ok(())
}

/// Copy a file to the path `to`, leaving the source untouched. With
/// `overwrite`, an existing destination is replaced; without it, an existing
/// destination is an error. Relies on `fs_extra::file::copy`.
#[verifier::external_body]
pub fn copy_file(from: &str, to: &str, overwrite: bool) -> Result<(), fs_extra::error::Error> {
    let options = fs_extra::file::CopyOptions::new().overwrite(overwrite);
    fs_extra::file::copy(from, to, &options)?;
    Ok(())
}

/// Copy a directory tree so that a duplicate of its content stands at the
/// path `to`, leaving the source untouched. Relies on `fs_extra::dir::copy`
/// with `content_only`, as `move_dir` above.
#[verifier::external_body]
pub fn copy_dir(from: &str, to: &str, overwrite: bool) -> Result<(), fs_extra::error::Error> {
    let options = fs_extra::dir::CopyOptions::new().overwrite(overwrite).content_only(true);
    fs_extra::dir::copy(from, to, &options)?;
    Ok(())
}

/// List a directory's immediate entries as full paths: its files, and its
/// sub-directories (among which the listed directory itself appears). Relies
/// on `fs_extra::dir::get_dir_content2` at depth one.
#[verifier::external_body]
pub fn list_dir(p: &str) -> Result<(Vec<String>, Vec<String>), fs_extra::error::Error> {
    let mut options = fs_extra::dir::DirOptions::new();
    options.depth = 1;
    let content = fs_extra::dir::get_dir_content2(p, &options)?;
    Ok((content.files, content.directories))
}

/// The message of a failed filesystem primitive. Relies on the `Display`
/// rendering of `fs_extra::error::Error`.
#[verifier::external_body]
pub fn fs_error_message(e: &fs_extra::error::Error) -> String {
    e.to_string()
}

} // verus!
