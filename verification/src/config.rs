//! The configuration snapshot.
//!
//! A `Config` is the complete, immutable aggregate of all watch specs and
//! all buckets considered active at a point in time. It is produced in full
//! by the surrounding program from the configuration document, activated
//! here (compiling every name filter once), and replaced only wholesale.

use vstd::prelude::*;

use crate::bucket::{Bucket, same_rule};
use crate::errors::JError;
use crate::filters::regex_compiles;
use crate::fsops::{fs_error_message, list_dir, path_is_dir, path_is_file};
use crate::paths::{file_name, file_name_of};
use crate::watch_path::{RecMode, WatchPath};

verus! {

/// The complete configuration: all watch specs and all buckets.
pub struct Config {
    /// The watched paths.
    pub watch: Vec<WatchPath>,
    /// The destination rules the watch specs refer to by name.
    pub bucket: Vec<Bucket>,
}

/// The entries of one listing that are kept for dispatch: those with a
/// proper file name (the pseudo-entries for the current and parent directory
/// are dropped), in listing order.
pub open spec fn named_entries(entries: Seq<String>) -> Seq<String>
    decreases entries.len(),
{
    if entries.len() == 0 {
        Seq::<String>::empty()
    } else if file_name_of(entries.last()@) is Some {
        named_entries(entries.drop_last()).push(entries.last())
    } else {
        named_entries(entries.drop_last())
    }
}

/// The sub-directories of one listing that are kept: every listed directory
/// except the listed root itself, again with a proper file name, in listing
/// order.
pub open spec fn sub_entries(entries: Seq<String>, root: Seq<char>) -> Seq<String>
    decreases entries.len(),
{
    if entries.len() == 0 {
        Seq::<String>::empty()
    } else if entries.last()@ != root && file_name_of(entries.last()@) is Some {
        sub_entries(entries.drop_last(), root).push(entries.last())
    } else {
        sub_entries(entries.drop_last(), root)
    }
}

/// Route one directory listing of the walk: the named files are collected
/// for file dispatch; the kept sub-directories are pushed onto the traversal
/// stack when the spec is recursive, and collected for directory dispatch,
/// without being entered, when it is not.
pub fn route_listing(
    dir: &String,
    files: &Vec<String>,
    dirs: &Vec<String>,
    recursive: bool,
    file_paths: &mut Vec<String>,
    dir_paths: &mut Vec<String>,
    stack: &mut Vec<String>,
)
    ensures
        final(file_paths)@ == old(file_paths)@ + named_entries(files@),
        recursive ==> final(stack)@ == old(stack)@ + sub_entries(dirs@, dir@) && final(dir_paths)@ == old(dir_paths)@,
        !recursive ==> final(dir_paths)@ == old(dir_paths)@ + sub_entries(dirs@, dir@) && final(stack)@ == old(stack)@,
{
    proof {
        assert(files@.take(0) =~= Seq::<String>::empty());
        assert(file_paths@ =~= old(file_paths)@ + named_entries(files@.take(0)));
        assert(dirs@.take(0) =~= Seq::<String>::empty());
    }
    let mut fi: usize = 0;
    while fi < files.len()
        invariant
            fi <= files@.len(),
            file_paths@ == old(file_paths)@ + named_entries(files@.take(fi as int)),
            dir_paths@ == old(dir_paths)@,
            stack@ == old(stack)@,
        decreases files@.len() - fi,
    {
        let f = &files[fi];
        if file_name(f.as_str()).is_some() {
            file_paths.push(f.clone());
        }
        proof {
            assert(files@.take(fi + 1).drop_last() =~= files@.take(fi as int));
            assert(files@.take(fi + 1).last() == files@[fi as int]);
            assert(file_paths@ =~= old(file_paths)@ + named_entries(files@.take(fi + 1)));
        }
        fi = fi + 1;
    }
    proof {
        assert(files@.take(files@.len() as int) =~= files@);
    }
    let mut di: usize = 0;
    while di < dirs.len()
        invariant
            di <= dirs@.len(),
            file_paths@ == old(file_paths)@ + named_entries(files@),
            recursive ==> stack@ == old(stack)@ + sub_entries(dirs@.take(di as int), dir@) && dir_paths@ == old(dir_paths)@,
            !recursive ==> dir_paths@ == old(dir_paths)@ + sub_entries(dirs@.take(di as int), dir@) && stack@ == old(stack)@,
        decreases dirs@.len() - di,
    {
        let d = &dirs[di];
        if !(*d == *dir) && file_name(d.as_str()).is_some() {
            if recursive {
                stack.push(d.clone());
            } else {
                dir_paths.push(d.clone());
            }
        }
        proof {
            assert(dirs@.take(di + 1).drop_last() =~= dirs@.take(di as int));
            assert(dirs@.take(di + 1).last() == dirs@[di as int]);
            if recursive {
                assert(stack@ =~= old(stack)@ + sub_entries(dirs@.take(di + 1), dir@));
            } else {
                assert(dir_paths@ =~= old(dir_paths)@ + sub_entries(dirs@.take(di + 1), dir@));
            }
        }
        di = di + 1;
    }
    proof {
        assert(dirs@.take(dirs@.len() as int) =~= dirs@);
    }
}

impl Config {
    /// Every bucket's matchers are compiled; what dispatch requires of an
    /// active snapshot.
    pub open spec fn wf(&self) -> bool {
        forall|i: int| 0 <= i < self.bucket@.len() ==> (#[trigger] self.bucket@[i]).filters_compiled()
    }

    /// Compile every bucket's name filters; the activation step that turns a
    /// parsed configuration into an active snapshot. Succeeds exactly when
    /// every name filter of every bucket is a well-formed regular
    /// expression; the rules themselves are left untouched either way.
    pub fn activate(&mut self) -> (r: Result<(), JError>)
        ensures
            r is Ok <==> (forall|i: int, m: int| 0 <= i < old(self).bucket@.len() && 0 <= m < old(self).bucket@[i].name_filters@.len() ==> regex_compiles(#[trigger] old(self).bucket@[i].name_filters@[m]@)),
            r is Ok ==> final(self).wf(),
            r matches Err(e) ==> e is PatternError,
            final(self).watch == old(self).watch,
            final(self).bucket@.len() == old(self).bucket@.len(),
            forall|i: int| 0 <= i < old(self).bucket@.len() ==> same_rule(&final(self).bucket@[i], &old(self).bucket@[i]),
    {
        let mut i: usize = 0;
        while i < self.bucket.len()
            invariant
                i <= self.bucket@.len(),
                self.bucket@.len() == old(self).bucket@.len(),
                self.watch == old(self).watch,
                forall|k: int| 0 <= k < self.bucket@.len() ==> same_rule(&self.bucket@[k], &old(self).bucket@[k]),
                forall|k: int| 0 <= k < i ==> (#[trigger] self.bucket@[k]).filters_compiled(),
                forall|k: int, m: int| 0 <= k < i && 0 <= m < old(self).bucket@[k].name_filters@.len() ==> regex_compiles(#[trigger] old(self).bucket@[k].name_filters@[m]@),
            decreases self.bucket@.len() - i,
        {
            let res = self.bucket[i].init();
            match res {
                Ok(_) => {},
                Err(e) => {
                    return Err(e);
                },
            }
            i = i + 1;
        }
        Ok(())
    }

    /// Process every pre-existing entry under every watch spec once. With no
    /// watch specs there is nothing to do and the call succeeds.
    ///
    /// Each watched path is walked with an explicit stack. A recursive spec
    /// has its whole sub-tree traversed and its files dispatched; a
    /// non-recursive spec has its immediate files dispatched as files and
    /// its immediate sub-directories dispatched as directories, without
    /// entering them. Pseudo-entries for the current and parent directory
    /// are skipped. Files are dispatched before directories. The walk is
    /// bounded by a step budget so that it provably ends; no real directory
    /// tree comes near the bound.
    pub fn one_shot(&self) -> (r: Result<(), JError>)
        requires
            self.wf(),
        ensures
            self.watch@.len() == 0 ==> r is Ok,
            r matches Err(e) ==> (e is ActionFailed || e is InvalidPath),
    {
        let mut wi: usize = 0;
        while wi < self.watch.len()
            invariant
                wi <= self.watch@.len(),
                self.wf(),
            decreases self.watch@.len() - wi,
        {
            let wp = &self.watch[wi];
            let recursive = matches!(wp.recursive_mode, RecMode::Recursive);
            let mut stack: Vec<String> = Vec::new();
            let mut file_paths: Vec<String> = Vec::new();
            let mut dir_paths: Vec<String> = Vec::new();
            if path_is_file(wp.path.as_str()) {
                file_paths.push(wp.path.clone());
            } else if path_is_dir(wp.path.as_str()) {
                stack.push(wp.path.clone());
            }
            let mut budget: u64 = u64::MAX;
            while stack.len() > 0 && budget > 0
                invariant
                    self.watch@.len() > 0,
                decreases budget,
            {
                budget = budget - 1;
                let dir = match stack.pop() {
                    Some(d) => d,
                    None => {
                        return unreached();
                    },
                };
                let listing = match list_dir(dir.as_str()) {
                    Ok(l) => l,
                    Err(e) => {
                        return Err(JError::ActionFailed(fs_error_message(&e)));
                    },
                };
                let (files, dirs) = listing;
                route_listing(&dir, &files, &dirs, recursive, &mut file_paths, &mut dir_paths, &mut stack);
            }
            match wp.handle_paths(&file_paths, true, self) {
                Ok(_) => {},
                Err(e) => {
                    return Err(e);
                },
            }
            match wp.handle_paths(&dir_paths, false, self) {
                Ok(_) => {},
                Err(e) => {
                    return Err(e);
                },
            }
            wi = wi + 1;
        }
        Ok(())
    }
}

} // verus!
