//! Buckets: named destination rules.
//!
//! A `Bucket` is a destination for files from watched paths. It has filters
//! for names and extensions. If a file fits into multiple buckets, the one
//! that is greatest under the selection order (priority, then name) is used.
//! A bucket carries the action to perform — move, copy, or delete — and the
//! policy applied when the computed destination name is already occupied.

use vstd::prelude::*;

use crate::errors::JError;
use crate::filters::{FilterSet, filter_patterns, regex_accepts, regex_compiles, regex_error_message};
use crate::fsops::{copy_dir, copy_file, fs_error_message, move_dir, move_file, path_exists, remove_dir, remove_file};
use crate::paths::{extension, extension_of, file_name, file_name_of, join_path, joined_path, lex_le, lex_le_str, probe_candidate, probe_rep};

verus! {

/// The action performed on an entry that is placed into a bucket.
#[derive(Debug, Clone, Copy, PartialEq, Eq, Structural)]
pub enum Action {
    /// Move the entry to the bucket destination.
    Move,
    /// Delete the entry.
    Delete,
    /// Copy the entry into the bucket destination.
    Copy,
}

impl Default for Action {
    /// The default action is `Move`.
    fn default() -> (r: Self)
        ensures
            r is Move,
    {
        Action::Move
    }
}

/// The policy applied when an entry of the computed destination name already
/// exists in the bucket.
#[derive(Debug, Clone, Copy, PartialEq, Eq, Structural)]
pub enum OverrideAction {
    /// Replace the occupant with the new entry.
    Overwrite,
    /// Rename the destination in sequential order: `file.txt` -> `file.txt.1`
    /// -> `file.txt.2`, using the first free name.
    Rename,
    /// Leave everything untouched and report the entry as handled.
    Skip,
}

impl Default for OverrideAction {
    /// The default collision policy is `Skip`.
    fn default() -> (r: Self)
        ensures
            r is Skip,
    {
        OverrideAction::Skip
    }
}

/// Whether some element of `v` reads as the text `s`.
pub open spec fn contains_str(v: Seq<String>, s: Seq<char>) -> bool {
    exists|i: int| 0 <= i < v.len() && v[i]@ == s
}

/// Check whether some element of `v` equals `s`.
pub fn contains_string(v: &Vec<String>, s: &String) -> (r: bool)
    ensures
        r == contains_str(v@, s@),
{
    let mut i: usize = 0;
    while i < v.len()
        invariant
            i <= v@.len(),
            forall|k: int| 0 <= k < i ==> v@[k]@ != s@,
        decreases v@.len() - i,
    {
        if v[i] == *s {
            return true;
        }
        i = i + 1;
    }
    false
}

/// A named destination rule: match filters, a priority, an action, and a
/// collision policy. The extension filters check only the final extension:
/// `archive.tar.gz` is not recognized by the filter "tar", because only the
/// final extension is checked.
pub struct Bucket {
    /// Unique identifier for the bucket.
    pub name: String,
    /// Where entries belonging to this bucket are stored.
    pub destination: String,
    /// Extensions of files which belong to this bucket.
    pub extension_filters: Vec<String>,
    /// The entry belongs to this bucket if its name matches at least one of
    /// these regular expressions.
    pub name_filters: Vec<String>,
    /// If multiple buckets can take an entry, the one greatest under the
    /// selection order — priority, then name — takes it.
    pub priority: u32,
    /// What is done with an entry placed into this bucket.
    pub action: Action,
    /// What is done if an entry of the same name already sits in the bucket.
    pub override_action: OverrideAction,
    /// The matchers compiled from `name_filters`, built once on activation.
    pub matchers: FilterSet,
}

impl PartialEq for Bucket {
    /// Buckets count as equal by identity and placement: name, destination,
    /// and priority; the filters and the action are not compared.
    fn eq(&self, other: &Self) -> (r: bool) {
        self.name == other.name && self.destination == other.destination && self.priority
            == other.priority
    }
}

impl vstd::std_specs::cmp::PartialEqSpecImpl for Bucket {
    open spec fn obeys_eq_spec() -> bool {
        true
    }

    open spec fn eq_spec(&self, other: &Self) -> bool {
        self.name@ == other.name@ && self.destination@ == other.destination@ && self.priority
            == other.priority
    }
}

impl Eq for Bucket {

}

/// The selection order on buckets: by priority, then by name. The bucket
/// greatest under this order wins: highest priority first, and among equal
/// priorities the lexicographically greatest name.
pub open spec fn bucket_le(a: &Bucket, b: &Bucket) -> bool {
    a.priority < b.priority || (a.priority == b.priority && lex_le(a.name@, b.name@))
}

/// Compare two buckets under the selection order.
pub fn bucket_le_exec(a: &Bucket, b: &Bucket) -> (r: bool)
    ensures
        r == bucket_le(a, b),
{
    if a.priority < b.priority {
        true
    } else if a.priority == b.priority {
        lex_le_str(a.name.as_str(), b.name.as_str())
    } else {
        false
    }
}

impl Bucket {
    /// The compiled matchers correspond exactly to the name filters.
    pub open spec fn filters_compiled(&self) -> bool {
        filter_patterns(self.matchers) == self.name_filters@.map_values(|f: String| f@)
    }

    /// Whether the path's final extension equals one of the extension
    /// filters.
    pub open spec fn ext_match(&self, p: Seq<char>) -> bool {
        match extension_of(p) {
            Some(e) => contains_str(self.extension_filters@, e),
            None => false,
        }
    }

    /// Whether some name filter matches the path's file name.
    pub open spec fn name_match(&self, p: Seq<char>) -> bool {
        match file_name_of(p) {
            Some(f) => exists|i: int| 0 <= i < self.name_filters@.len() && regex_accepts(self.name_filters@[i]@, f),
            None => false,
        }
    }

    /// Whether a path fits this bucket: by its extension, or failing that,
    /// by a name filter.
    pub open spec fn fits(&self, p: Seq<char>) -> bool {
        self.ext_match(p) || self.name_match(p)
    }

    /// Given a path, check if the entry fits into the bucket. An extension
    /// match decides immediately; the name filters are consulted only
    /// otherwise. A path with no file name fits nothing.
    pub fn is_fitting(&self, path: &String) -> (r: Result<bool, JError>)
        requires
            self.filters_compiled(),
        ensures
            r matches Ok(f) && f == self.fits(path@),
    {
        match extension(path.as_str()) {
            Some(e) => {
                if contains_string(&self.extension_filters, &e) {
                    return Ok(true);
                }
            },
            None => {},
        }
        match file_name(path.as_str()) {
            Some(f) => {
                let m = self.matchers.matches_any(f.as_str());
                proof {
                    let fp = filter_patterns(self.matchers);
                    let nf = self.name_filters@.map_values(|x: String| x@);
                    if m {
                        let i = choose|i: int| 0 <= i < fp.len() && regex_accepts(fp[i], f@);
                        assert(fp[i] == self.name_filters@[i]@);
                        assert(self.name_match(path@));
                    } else if self.name_match(path@) {
                        let i = choose|i: int|
                            0 <= i < self.name_filters@.len() && regex_accepts(
                                self.name_filters@[i]@,
                                file_name_of(path@).unwrap(),
                            );
                        assert(fp[i] == self.name_filters@[i]@);
                        assert(false);
                    }
                }
                Ok(m)
            },
            None => Ok(false),
        }
    }

    /// Compile the name filters into cached matchers. Succeeds exactly when
    /// every filter is a well-formed regular expression; a refused filter is
    /// reported as a `PatternError`. The rule fields are left untouched.
    pub fn init(&mut self) -> (r: Result<(), JError>)
        ensures
            r is Ok <==> (forall|i: int| 0 <= i < old(self).name_filters@.len() ==> regex_compiles(#[trigger] old(self).name_filters@[i]@)),
            r is Ok ==> final(self).filters_compiled(),
            r matches Err(e) ==> e is PatternError,
            final(self).name == old(self).name,
            final(self).destination == old(self).destination,
            final(self).extension_filters == old(self).extension_filters,
            final(self).name_filters == old(self).name_filters,
            final(self).priority == old(self).priority,
            final(self).action == old(self).action,
            final(self).override_action == old(self).override_action,
    {
        self.matchers = FilterSet::new();
        let ghost nf = self.name_filters@.map_values(|f: String| f@);
        let mut i: usize = 0;
        while i < self.name_filters.len()
            invariant
                i <= self.name_filters@.len(),
                nf == self.name_filters@.map_values(|f: String| f@),
                filter_patterns(self.matchers) == nf.take(i as int),
                forall|k: int| 0 <= k < i ==> regex_compiles(#[trigger] self.name_filters@[k]@),
                self.name == old(self).name,
                self.destination == old(self).destination,
                self.extension_filters == old(self).extension_filters,
                self.name_filters == old(self).name_filters,
                self.priority == old(self).priority,
                self.action == old(self).action,
                self.override_action == old(self).override_action,
            decreases self.name_filters@.len() - i,
        {
            let filter = &self.name_filters[i];
            let res = self.matchers.add(filter);
            match res {
                Ok(_) => {},
                Err(e) => {
                    return Err(JError::PatternError(regex_error_message(&e)));
                },
            }
            proof {
                assert(filter_patterns(self.matchers) =~= nf.take(i + 1));
            }
            i = i + 1;
        }
        proof {
            assert(nf.take(i as int) =~= nf);
        }
        Ok(())
    }

    /// Probe `path`, then `path.1`, `path.2`, ... in order, and return the
    /// first name not occupied on disk.
    pub fn rename_seq(&self, path: &String) -> (r: Result<String, JError>)
        ensures
            r matches Ok(p) ==> p@ == path@ || (exists|k: int| 1 <= k && p@ == probe_rep(path@, k)),
            r matches Err(e) ==> e is InvalidPath,
    {
        if !path_exists(path.as_str()) {
            return Ok(path.clone());
        }
        let mut k: u64 = 1;
        loop
            invariant
                1 <= k,
            decreases u64::MAX - k,
        {
            let candidate = probe_candidate(path.as_str(), k);
            if !path_exists(candidate.as_str()) {
                proof {
                    assert(candidate@ == probe_rep(path@, k as int));
                }
                return Ok(candidate);
            }
            if k == u64::MAX {
                return Err(JError::InvalidPath(path.clone()));
            }
            k = k + 1;
        }
    }

    /// The destination path computed for `p`: the bucket's destination
    /// directory joined with the final path segment of `p`.
    pub open spec fn destination_for(&self, p: Seq<char>) -> Seq<char>
        recommends
            file_name_of(p) is Some,
    {
        joined_path(self.destination@, file_name_of(p)->Some_0)
    }

    /// Try to apply the bucket's action to the entry at `path`, under the
    /// bucket's collision policy. This method does not check that the entry
    /// fits the bucket. A failed filesystem primitive is reported as an
    /// `ActionFailed` error and leaves no in-memory state behind.
    pub fn apply_action(&self, path: &String, is_file: bool) -> (r: Result<(), JError>)
        requires
            file_name_of(path@) is Some,
        ensures
            r matches Err(e) ==> (e is ActionFailed || e is InvalidPath),
    {
        let name = match file_name(path.as_str()) {
            Some(n) => n,
            None => {
                return unreached();
            },
        };
        let mut to_path = join_path(self.destination.as_str(), name.as_str());
        let dest_exists = path_exists(to_path.as_str());
        match decide_collision(&self.override_action, &self.action, dest_exists) {
            CollisionDecision::Skip => {
                return Ok(());
            },
            CollisionDecision::Rename => {
                to_path = match self.rename_seq(&to_path) {
                    Ok(p) => p,
                    Err(e) => {
                        return Err(e);
                    },
                };
            },
            CollisionDecision::Proceed => {},
        }
        let overwrite = matches!(self.override_action, OverrideAction::Overwrite);
        let outcome = match self.action {
            Action::Delete => if is_file {
                remove_file(path.as_str())
            } else {
                remove_dir(path.as_str())
            },
            Action::Move => if is_file {
                move_file(path.as_str(), to_path.as_str(), overwrite)
            } else {
                move_dir(path.as_str(), to_path.as_str(), overwrite)
            },
            Action::Copy => if is_file {
                copy_file(path.as_str(), to_path.as_str(), overwrite)
            } else {
                copy_dir(path.as_str(), to_path.as_str(), overwrite)
            },
        };
        match outcome {
            Ok(_) => Ok(()),
            Err(e) => Err(JError::ActionFailed(fs_error_message(&e))),
        }
    }
}

/// What the collision policy decides for one application of an action.
#[derive(Debug, Clone, Copy, PartialEq, Eq, Structural)]
pub enum CollisionDecision {
    /// Apply the action on the destination unchanged.
    Proceed,
    /// Probe for a free sequentially-renamed destination first.
    Rename,
    /// Do nothing; the entry counts as handled.
    Skip,
}

/// The collision rule, evaluated before an action: skip when the destination
/// is occupied, the policy says skip, and the action is not `Delete` (which
/// has no destination); rename whenever the policy says rename; otherwise
/// proceed on the destination unchanged.
pub open spec fn collision_decision(oa: OverrideAction, action: Action, dest_exists: bool) -> CollisionDecision {
    if oa is Skip && dest_exists && !(action is Delete) {
        CollisionDecision::Skip
    } else if oa is Rename {
        CollisionDecision::Rename
    } else {
        CollisionDecision::Proceed
    }
}

/// Evaluate the collision rule, as `collision_decision` defines it.
pub fn decide_collision(oa: &OverrideAction, action: &Action, dest_exists: bool) -> (d: CollisionDecision)
    ensures
        d == collision_decision(*oa, *action, dest_exists),
{
    match oa {
        OverrideAction::Skip => {
            if dest_exists && !matches!(action, Action::Delete) {
                CollisionDecision::Skip
            } else {
                CollisionDecision::Proceed
            }
        },
        OverrideAction::Rename => CollisionDecision::Rename,
        OverrideAction::Overwrite => CollisionDecision::Proceed,
    }
}

/// Skip policy: when the destination is occupied, the policy is skip, and
/// the action is not a delete, the collision rule decides to skip — the
/// action applier then mutates nothing and reports success.
pub proof fn lemma_skip_policy(oa: OverrideAction, action: Action, dest_exists: bool)
    requires
        oa is Skip,
        !(action is Delete),
        dest_exists,
    ensures
        collision_decision(oa, action, dest_exists) is Skip,
{
}

/// Two buckets carry the same rule: every field agrees except the compiled
/// matchers.
pub open spec fn same_rule(a: &Bucket, b: &Bucket) -> bool {
    a.name == b.name && a.destination == b.destination && a.extension_filters
        == b.extension_filters && a.name_filters == b.name_filters && a.priority == b.priority
        && a.action == b.action && a.override_action == b.override_action
}

/// A fitting path always has a file name: both the extension rule and the
/// name rule are defined on the path's file name.
pub proof fn lemma_fits_has_file_name(b: &Bucket, p: Seq<char>)
    requires
        b.fits(p),
    ensures
        file_name_of(p) is Some,
{
}

/// Extension matching considers only the final suffix: two paths with the
/// same extension are matched alike by the extension filters, whatever their
/// other text.
pub proof fn lemma_ext_match_final_suffix(b: &Bucket, p: Seq<char>, q: Seq<char>)
    requires
        extension_of(p) == extension_of(q),
    ensures
        b.ext_match(p) == b.ext_match(q),
{
}

/// Name filters are secondary: an extension match alone makes the path fit,
/// and when no extension filter matches, fitting is decided by the name
/// filters alone.
pub proof fn lemma_name_filters_secondary(b: &Bucket, p: Seq<char>)
    ensures
        b.ext_match(p) ==> b.fits(p),
        !b.ext_match(p) ==> b.fits(p) == b.name_match(p),
{
}

} // verus!
