//! Snapshot testing: what a stored snapshot says about a fresh rendering.
use vstd::prelude::*;
use crate::text::{chars_of, ends_with, is_suffix, push_str, str_eq, string_of, string_with_capacity, to_owned_string};

verus! {

#[derive(Debug, Clone)]
pub struct Snapshot {
    pub name: String,
    pub content: String,
}

/// Where snapshots are kept, and whether they are being rewritten.
pub struct SnapshotStore {
    pub dir: String,
    pub update: bool,
}

/// What to do with a fresh rendering.
#[derive(Debug)]
pub enum SnapshotVerdict {
    /// Store the rendering as the snapshot.
    Write,
    /// The rendering matches the stored snapshot.
    Match,
    /// The rendering differs; the message shows both.
    Mismatch(String),
}

/// The mismatch message of a snapshot.
pub open spec fn mismatch_text(name: Seq<char>, expected: Seq<char>, actual: Seq<char>) -> Seq<char> {
    "Snapshot mismatch for '"@ + name + "':\n--- expected ---\n"@ + expected + "\n--- actual ---\n"@ + actual
}

/// The names of snapshot files: those ending in `.snap`, without it, in order.
pub open spec fn snapshot_names_of(files: Seq<Seq<char>>) -> Seq<Seq<char>>
    decreases files.len(),
{
    if files.len() == 0 {
        seq![]
    } else {
        let r = snapshot_names_of(files.drop_last());
        let f = files.last();
        if is_suffix(".snap"@, f) { r.push(f.take(f.len() - 5)) } else { r }
    }
}

impl SnapshotStore {
    pub fn new(dir: &str, update: bool) -> (s: Self)
        ensures
            s.dir@ == dir@,
            s.update == update,
    {
        SnapshotStore { dir: to_owned_string(dir), update }
    }

    /// The file name of snapshot `name`.
    pub fn file_name(&self, name: &str) -> (f: String)
        ensures
            f@ == name@ + ".snap"@,
    {
        let mut f = string_with_capacity(0);
        push_str(&mut f, name);
        push_str(&mut f, ".snap");
        f
    }

    /// The verdict on `actual` given the stored snapshot, if there is one: write
    /// it when updating or when none is stored, else compare.
    pub fn verdict(&self, name: &str, existing: Option<&str>, actual: &str) -> (v: SnapshotVerdict)
        ensures
            (self.update || existing is None) ==> v is Write,
            !self.update ==> match existing {
                Some(e) => if e@ == actual@ {
                    v is Match
                } else {
                    v matches SnapshotVerdict::Mismatch(m) && m@ == mismatch_text(name@, e@, actual@)
                },
                None => true,
            },
    {
        if self.update {
            return SnapshotVerdict::Write;
        }
        match existing {
            None => SnapshotVerdict::Write,
            Some(expected) => {
                if str_eq(actual, expected) {
                    SnapshotVerdict::Match
                } else {
                    let mut m = string_with_capacity(0);
                    push_str(&mut m, "Snapshot mismatch for '");
                    push_str(&mut m, name);
                    push_str(&mut m, "':\n--- expected ---\n");
                    push_str(&mut m, expected);
                    push_str(&mut m, "\n--- actual ---\n");
                    push_str(&mut m, actual);
                    SnapshotVerdict::Mismatch(m)
                }
            },
        }
    }

    /// The snapshot names among the files of the directory, in order.
    pub fn snapshot_names(&self, files: &Vec<String>) -> (v: Vec<String>)
        ensures
            v@.map_values(|s: String| s@) == snapshot_names_of(files@.map_values(|s: String| s@)),
    {
        let ghost fv = files@.map_values(|s: String| s@);
        let mut v: Vec<String> = Vec::new();
        let mut i: usize = 0;
        while i < files.len()
            invariant
                i <= files@.len(),
                fv == files@.map_values(|s: String| s@),
                v@.map_values(|s: String| s@) == snapshot_names_of(fv.take(i as int)),
            decreases files@.len() - i,
        {
            proof {
                assert(fv.take(i + 1).drop_last() == fv.take(i as int));
                assert(fv.take(i + 1).last() == fv[i as int]);
            }
            let f = files[i].as_str();
            if ends_with(f, ".snap") {
                proof {
                    reveal_strlit(".snap");
                }
                let cs = chars_of(f);
                let n = cs.len() - 5;
                let mut keep: Vec<char> = Vec::new();
                let mut k: usize = 0;
                while k < n
                    invariant
                        k <= n,
                        n <= cs@.len(),
                        keep@ == cs@.take(k as int),
                    decreases n - k,
                {
                    keep.push(cs[k]);
                    proof {
                        assert(cs@.take(k + 1) =~= cs@.take(k as int).push(cs@[k as int]));
                    }
                    k = k + 1;
                }
                let stem = string_of(keep.as_slice());
                let ghost before = v@;
                v.push(stem);
                proof {
                    assert(v@.map_values(|s: String| s@) =~= before.map_values(|s: String| s@).push(fv[i as int].take(fv[i as int].len() - 5)));
                }
            }
            i = i + 1;
        }
        proof {
            assert(fv.take(fv.len() as int) == fv);
        }
        v
    }
}

/// Where route tests point, where snapshots live, and whether to rewrite them.
#[derive(Debug, Clone)]
pub struct TestConfig {
    pub base_url: String,
    pub snapshot_dir: String,
    pub update_snapshots: bool,
}

impl TestConfig {
    /// The default configuration, rewriting snapshots when `update_snapshots`.
    pub fn with_update(update_snapshots: bool) -> (c: Self)
        ensures
            c.base_url@ == "http://localhost:3000"@,
            c.snapshot_dir@ == "tests/snapshots"@,
            c.update_snapshots == update_snapshots,
    {
        TestConfig {
            base_url: to_owned_string("http://localhost:3000"),
            snapshot_dir: to_owned_string("tests/snapshots"),
            update_snapshots,
        }
    }
}

} // verus!
