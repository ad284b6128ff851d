use std::path::PathBuf;
use vstd::prelude::*;

verus! {

/// Size at which the live audit log is rotated, in bytes.
pub const MAX_BYTES: u64 = 10 * 1024 * 1024;
/// Number of rotated archives kept (`audit.jsonl.1` through `.5`).
pub const ARCHIVES: usize = 5;

/// Whether a live log of `len` bytes must be rotated before the next record.
pub fn needs_rotation(len: u64) -> (b: bool)
    ensures
        b == (len >= MAX_BYTES),
{
    len >= MAX_BYTES
}

/// The archive renames of a rotation, in the order they are performed:
/// archive `i` becomes archive `i + 1`, oldest first, after the last archive
/// has been deleted; then the live log becomes archive `1`.
pub open spec fn spec_archive_shifts(archives: nat) -> Seq<(usize, usize)>
    decreases archives,
{
    if archives <= 1 {
        Seq::empty()
    } else {
        seq![((archives - 1) as usize, archives as usize)] + spec_archive_shifts(
            (archives - 1) as nat,
        )
    }
}

/// The archive renames `index -> index + 1` of a rotation, from
/// `archives - 1` down to `1`.
pub fn archive_shifts(archives: usize) -> (v: Vec<(usize, usize)>)
    ensures
        v@ == spec_archive_shifts(archives as nat),
        v@.len() == if archives == 0 { 0 } else { archives - 1 },
        forall|k: int| 0 <= k < v@.len() ==> (#[trigger] v@[k]).0 == archives - 1 - k && v@[k].1
            == archives - k,
{
    let mut v: Vec<(usize, usize)> = Vec::new();
    let mut index: usize = archives;
    while index > 1
        invariant
            index <= archives,
            archives <= 1 ==> index == archives,
            archives >= 1 ==> index >= 1,
            v@ + spec_archive_shifts(index as nat) == spec_archive_shifts(archives as nat),
            v@.len() == archives - index,
            forall|k: int| 0 <= k < v@.len() ==> (#[trigger] v@[k]).0 == archives - 1 - k && v@[k].1
                == archives - k,
        decreases index,
    {
        let ghost before = v@;
        v.push((index - 1, index));
        proof {
            assert(spec_archive_shifts(index as nat) == seq![((index - 1) as usize, index)]
                + spec_archive_shifts((index - 1) as nat));
            assert(v@ + spec_archive_shifts((index - 1) as nat) =~= before + spec_archive_shifts(
                index as nat,
            ));
        }
        index = index - 1;
    }
    assert(spec_archive_shifts(index as nat) =~= Seq::<(usize, usize)>::empty());
    assert(v@ =~= v@ + Seq::<(usize, usize)>::empty());
    v
}

/// Law: in a rotation, every rename moves an archive into the slot the
/// previous rename vacated (or, first, into the deleted last slot), so no
/// archive is overwritten before it has been moved.
pub proof fn lemma_rotation_never_overwrites(archives: nat, k: int)
    requires
        2 <= archives <= usize::MAX,
        0 <= k < archives - 1,
    ensures
        spec_archive_shifts(archives).len() == archives - 1,
        k == 0 ==> spec_archive_shifts(archives)[k].1 == archives,
        k > 0 ==> spec_archive_shifts(archives)[k].1 == spec_archive_shifts(archives)[k - 1].0,
        spec_archive_shifts(archives)[k].1 == spec_archive_shifts(archives)[k].0 + 1,
    decreases archives,
{
    lemma_shift_entry(archives, k);
    if k > 0 {
        lemma_shift_entry(archives, k - 1);
    }
}

proof fn lemma_shift_entry(archives: nat, k: int)
    requires
        1 <= archives <= usize::MAX,
        0 <= k < archives - 1,
    ensures
        spec_archive_shifts(archives).len() == archives - 1,
        spec_archive_shifts(archives)[k] == ((archives - 1 - k) as usize, (archives - k) as usize),
    decreases archives,
{
    lemma_shift_len(archives);
    if k > 0 {
        lemma_shift_entry((archives - 1) as nat, k - 1);
    }
}

proof fn lemma_shift_len(archives: nat)
    ensures
        spec_archive_shifts(archives).len() == if archives == 0 { 0 } else { archives - 1 },
    decreases archives,
{
    if archives > 1 {
        lemma_shift_len((archives - 1) as nat);
    }
}

/// The append-only JSONL audit log at a fixed path.
#[derive(Debug)]
pub struct AuditLogger {
    path: PathBuf,
}

impl AuditLogger {
    /// A logger writing to `path`.
    pub fn at_path(path: PathBuf) -> (l: Self)
        ensures
            l.log_path() == path,
    {
        AuditLogger { path }
    }

    /// The log file's path.
    pub closed spec fn log_path(&self) -> PathBuf {
        self.path
    }

    /// The log file's path.
    pub fn path(&self) -> (p: &PathBuf)
        ensures
            *p == self.log_path(),
    {
        &self.path
    }
}

} // verus!
