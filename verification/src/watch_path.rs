//! Watch specs and dispatch.
//!
//! A `WatchPath` is a directory watched for new entries, together with the
//! names of the buckets eligible for entries discovered under it. When a new
//! entry appears, the eligible buckets the entry fits are collected and
//! exactly one is selected: the greatest under the selection order (priority,
//! then name), the latest such among fully tied candidates.

use vstd::prelude::*;

use crate::bucket::{Bucket, bucket_le, bucket_le_exec, contains_str, contains_string, lemma_fits_has_file_name};
use crate::config::Config;
use crate::errors::JError;
use crate::events::{EventKind, FsEvent};
use crate::paths::{lemma_lex_le_antisymmetric, lemma_lex_le_total, lex_le};

verus! {

/// Whether only the watched directory itself is checked for new entries, or
/// its entire sub-tree.
#[derive(Debug, Clone, Copy, PartialEq, Eq, Structural)]
pub enum RecMode {
    Recursive,
    NonRecursive,
}

impl Default for RecMode {
    /// The default mode watches only the immediate directory.
    fn default() -> (r: Self)
        ensures
            r is NonRecursive,
    {
        RecMode::NonRecursive
    }
}

/// A path watched for new entries, with the buckets eligible for them.
#[derive(Debug, Clone)]
pub struct WatchPath {
    /// The directory to watch.
    pub path: String,
    /// Whether the whole sub-tree is watched.
    pub recursive_mode: RecMode,
    /// The names of the buckets eligible for entries found here.
    pub bucket_names: Vec<String>,
}

/// Whether bucket `i` is a candidate for a dispatch: referenced by the watch
/// spec's bucket names, and fitting the path.
pub open spec fn is_candidate(names: Seq<String>, buckets: Seq<Bucket>, i: int, p: Seq<char>) -> bool {
    contains_str(names, buckets[i].name@) && buckets[i].fits(p)
}

/// The selected bucket among the first `n`: the greatest candidate under the
/// selection order, the latest such when candidates tie.
pub open spec fn pick_spec(names: Seq<String>, buckets: Seq<Bucket>, p: Seq<char>, n: int) -> Option<int>
    decreases n,
{
    if n <= 0 {
        None
    } else if is_candidate(names, buckets, n - 1, p) {
        match pick_spec(names, buckets, p, n - 1) {
            Some(j) => if bucket_le(&buckets[j], &buckets[n - 1]) {
                Some(n - 1)
            } else {
                Some(j)
            },
            None => Some(n - 1),
        }
    } else {
        pick_spec(names, buckets, p, n - 1)
    }
}

/// The selection order is total over buckets.
pub proof fn lemma_bucket_le_total(a: &Bucket, b: &Bucket)
    ensures
        bucket_le(a, b) || bucket_le(b, a),
{
    lemma_lex_le_total(a.name@, b.name@);
}

/// The selection order is transitive.
pub proof fn lemma_bucket_le_transitive(a: &Bucket, b: &Bucket, c: &Bucket)
    requires
        bucket_le(a, b),
        bucket_le(b, c),
    ensures
        bucket_le(a, c),
{
    if a.priority == b.priority && b.priority == c.priority {
        lemma_lex_le_transitive(a.name@, b.name@, c.name@);
    }
}

/// `lex_le` is transitive.
pub proof fn lemma_lex_le_transitive(a: Seq<char>, b: Seq<char>, c: Seq<char>)
    requires
        lex_le(a, b),
        lex_le(b, c),
    ensures
        lex_le(a, c),
    decreases a.len(),
{
    if a.len() == 0 {
    } else {
        assert(b.len() > 0);
        if b.len() > 0 && c.len() > 0 {
            if a[0] == b[0] && b[0] == c[0] {
                lemma_lex_le_transitive(a.drop_first(), b.drop_first(), c.drop_first());
            }
        }
    }
}

/// When the selector returns nothing, there is no candidate.
pub proof fn lemma_pick_spec_none(names: Seq<String>, buckets: Seq<Bucket>, p: Seq<char>, n: int)
    requires
        0 <= n <= buckets.len(),
        pick_spec(names, buckets, p, n) is None,
    ensures
        forall|i: int| 0 <= i < n ==> !is_candidate(names, buckets, i, p),
    decreases n,
{
    if n > 0 {
        lemma_pick_spec_none(names, buckets, p, n - 1);
    }
}

/// What the selector returns is a candidate, and every candidate precedes it
/// under the selection order.
pub proof fn lemma_pick_spec_max(names: Seq<String>, buckets: Seq<Bucket>, p: Seq<char>, n: int, j: int)
    requires
        0 <= n <= buckets.len(),
        pick_spec(names, buckets, p, n) == Some(j),
    ensures
        0 <= j < n,
        is_candidate(names, buckets, j, p),
        forall|i: int| 0 <= i < n && is_candidate(names, buckets, i, p) ==> bucket_le(&buckets[i], &buckets[j]),
    decreases n,
{
    if n > 0 {
        let prev = pick_spec(names, buckets, p, n - 1);
        if is_candidate(names, buckets, n - 1, p) {
            match prev {
                Some(j0) => {
                    lemma_pick_spec_max(names, buckets, p, n - 1, j0);
                    if bucket_le(&buckets[j0], &buckets[n - 1]) {
                        assert(j == n - 1);
                        assert forall|i: int|
                            0 <= i < n && is_candidate(names, buckets, i, p) implies bucket_le(
                            &buckets[i],
                            &buckets[j],
                        ) by {
                            if i < n - 1 {
                                lemma_bucket_le_transitive(&buckets[i], &buckets[j0], &buckets[n - 1]);
                            } else {
                                lemma_bucket_le_total(&buckets[n - 1], &buckets[n - 1]);
                            }
                        }
                    } else {
                        assert(j == j0);
                        assert forall|i: int|
                            0 <= i < n && is_candidate(names, buckets, i, p) implies bucket_le(
                            &buckets[i],
                            &buckets[j],
                        ) by {
                            if i == n - 1 {
                                lemma_bucket_le_total(&buckets[j0], &buckets[n - 1]);
                            }
                        }
                    }
                },
                None => {
                    assert(j == n - 1);
                    lemma_pick_spec_none(names, buckets, p, n - 1);
                    assert forall|i: int|
                        0 <= i < n && is_candidate(names, buckets, i, p) implies bucket_le(
                        &buckets[i],
                        &buckets[j],
                    ) by {
                        lemma_bucket_le_total(&buckets[n - 1], &buckets[n - 1]);
                    }
                },
            }
        } else {
            lemma_pick_spec_max(names, buckets, p, n - 1, j);
        }
    }
}

/// For a path matching exactly one bucket among the candidates for its watch
/// spec, the selector returns that bucket: its action and destination are
/// what is applied.
pub proof fn lemma_unique_candidate_picked(names: Seq<String>, buckets: Seq<Bucket>, p: Seq<char>, j: int)
    requires
        0 <= j < buckets.len(),
        is_candidate(names, buckets, j, p),
        forall|i: int| 0 <= i < buckets.len() && i != j ==> !is_candidate(names, buckets, i, p),
    ensures
        pick_spec(names, buckets, p, buckets.len() as int) == Some(j),
{
    lemma_unique_candidate_picked_upto(names, buckets, p, j, buckets.len() as int);
}

proof fn lemma_unique_candidate_picked_upto(names: Seq<String>, buckets: Seq<Bucket>, p: Seq<char>, j: int, n: int)
    requires
        0 <= j < buckets.len(),
        0 <= n <= buckets.len(),
        is_candidate(names, buckets, j, p),
        forall|i: int| 0 <= i < buckets.len() && i != j ==> !is_candidate(names, buckets, i, p),
    ensures
        n <= j ==> pick_spec(names, buckets, p, n) is None,
        n > j ==> pick_spec(names, buckets, p, n) == Some(j),
    decreases n,
{
    if n > 0 {
        lemma_unique_candidate_picked_upto(names, buckets, p, j, n - 1);
        if n - 1 == j {
            lemma_bucket_le_total(&buckets[j], &buckets[j]);
        }
    }
}

/// Tie-break determinism: of two candidate buckets with equal priority and
/// different names, the selector picks the one with the lexicographically
/// greater name, whichever order the two stand in.
pub proof fn lemma_equal_priority_tie_break(names: Seq<String>, a: Bucket, b: Bucket, p: Seq<char>)
    requires
        a.priority == b.priority,
        lex_le(a.name@, b.name@),
        a.name@ != b.name@,
        is_candidate(names, seq![a, b], 0, p),
        is_candidate(names, seq![a, b], 1, p),
        is_candidate(names, seq![b, a], 0, p),
        is_candidate(names, seq![b, a], 1, p),
    ensures
        pick_spec(names, seq![a, b], p, 2) == Some(1int),
        pick_spec(names, seq![b, a], p, 2) == Some(0int),
{
    let s = seq![a, b];
    assert(pick_spec(names, s, p, 0) is None);
    assert(pick_spec(names, s, p, 1) == Some(0int));
    assert(bucket_le(&s[0], &s[1]));
    assert(pick_spec(names, s, p, 2) == Some(1int));
    let t = seq![b, a];
    assert(pick_spec(names, t, p, 0) is None);
    assert(pick_spec(names, t, p, 1) == Some(0int));
    assert(!bucket_le(&t[0], &t[1])) by {
        if lex_le(b.name@, a.name@) {
            lemma_lex_le_antisymmetric(a.name@, b.name@);
        }
    }
    assert(pick_spec(names, t, p, 2) == Some(0int));
}

impl WatchPath {
    /// No bucket referenced by this watch spec fits the path: the selector
    /// finds no candidate for it among the configured buckets.
    pub open spec fn no_candidate(&self, config: &Config, p: Seq<char>) -> bool {
        pick_spec(self.bucket_names@, config.bucket@, p, config.bucket@.len() as int) is None
    }

    /// Pick the winning bucket for one path: among the buckets this watch
    /// spec references that the path fits, the index of the greatest under
    /// the selection order; `None` when no eligible bucket fits.
    pub fn pick_bucket(&self, buckets: &Vec<Bucket>, path: &String) -> (r: Option<usize>)
        requires
            forall|i: int| 0 <= i < buckets@.len() ==> (#[trigger] buckets@[i]).filters_compiled(),
        ensures
            match r {
                Some(j) => j < buckets@.len() && pick_spec(self.bucket_names@, buckets@, path@, buckets@.len() as int) == Some(j as int) && is_candidate(self.bucket_names@, buckets@, j as int, path@),
                None => pick_spec(self.bucket_names@, buckets@, path@, buckets@.len() as int) is None,
            },
    {
        let ghost names = self.bucket_names@;
        let mut best: Option<usize> = None;
        let mut i: usize = 0;
        while i < buckets.len()
            invariant
                i <= buckets@.len(),
                forall|k: int| 0 <= k < buckets@.len() ==> (#[trigger] buckets@[k]).filters_compiled(),
                names == self.bucket_names@,
                match best {
                    Some(j) => j < i && pick_spec(names, buckets@, path@, i as int) == Some(j as int) && is_candidate(names, buckets@, j as int, path@),
                    None => pick_spec(names, buckets@, path@, i as int) is None,
                },
            decreases buckets@.len() - i,
        {
            let b = &buckets[i];
            let referenced = contains_string(&self.bucket_names, &b.name);
            let fitting = if referenced {
                match b.is_fitting(path) {
                    Ok(f) => f,
                    Err(_) => false,
                }
            } else {
                false
            };
            if referenced && fitting {
                match best {
                    Some(j) => {
                        if bucket_le_exec(&buckets[j], b) {
                            best = Some(i);
                        }
                    },
                    None => {
                        best = Some(i);
                    },
                }
            }
            i = i + 1;
        }
        best
    }

    /// Dispatch a batch of paths discovered under this watch spec: for each
    /// path, pick the winning bucket and apply its action. A path fitting no
    /// bucket is left alone, and a batch in which no path has a winning
    /// bucket succeeds without an action. The first failed action is
    /// reported and aborts the rest of the batch; the caller goes on with
    /// the next event.
    pub fn handle_paths(&self, paths: &Vec<String>, is_file: bool, config: &Config) -> (r: Result<(), JError>)
        requires
            config.wf(),
        ensures
            (forall|k: int| 0 <= k < paths@.len() ==> self.no_candidate(config, #[trigger] paths@[k]@)) ==> r is Ok,
            r matches Err(e) ==> (e is ActionFailed || e is InvalidPath),
    {
        let mut pi: usize = 0;
        while pi < paths.len()
            invariant
                pi <= paths@.len(),
                config.wf(),
            decreases paths@.len() - pi,
        {
            let path = &paths[pi];
            match self.pick_bucket(&config.bucket, path) {
                Some(j) => {
                    proof {
                        lemma_fits_has_file_name(&config.bucket@[j as int], path@);
                    }
                    match config.bucket[j].apply_action(path, is_file) {
                        Ok(_) => {},
                        Err(e) => {
                            proof {
                                assert(!self.no_candidate(config, paths@[pi as int]@));
                            }
                            return Err(e);
                        },
                    }
                },
                None => {},
            }
            pi = pi + 1;
        }
        Ok(())
    }

    /// Handle one filesystem notification. A rescan notice and anything but
    /// an entry creation of known kind are ignored; the created paths are
    /// dispatched as one batch, as files or as directories according to the
    /// notification. A notification none of whose paths has a winning bucket
    /// succeeds without an action.
    pub fn handle_event(&self, ev: &FsEvent, config: &Config) -> (r: Result<(), JError>)
        requires
            config.wf(),
        ensures
            ev.rescan || !(ev.kind is CreateFile || ev.kind is CreateFolder) ==> r is Ok,
            (forall|k: int| 0 <= k < ev.paths@.len() ==> self.no_candidate(config, #[trigger] ev.paths@[k]@)) ==> r is Ok,
            r matches Err(e) ==> (e is ActionFailed || e is InvalidPath),
    {
        if ev.rescan {
            return Ok(());
        }
        let is_file = match ev.kind {
            EventKind::CreateFile => true,
            EventKind::CreateFolder => false,
            _ => {
                return Ok(());
            },
        };
        self.handle_paths(&ev.paths, is_file, config)
    }
}

} // verus!
