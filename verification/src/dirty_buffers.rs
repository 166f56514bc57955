//! Names of the dirty-buffer snapshots the daemon keeps, so that closing a
//! client is not a data loss.

use vstd::prelude::*;

use crate::daemon_id::{fnv_fold, FNV_OFFSET, FNV_PRIME};
use crate::text::{hex_digits, push_hex};

verus! {

/// Plain FNV-1a 64 over `bytes`.
pub fn fnv1a64(bytes: &[u8]) -> (hash: u64)
    ensures
        hash == fnv_fold(FNV_OFFSET, bytes@),
{
    let mut hash: u64 = FNV_OFFSET;
    let mut j: usize = 0;
    while j < bytes.len()
        invariant
            j <= bytes@.len(),
            hash == fnv_fold(FNV_OFFSET, bytes@.take(j as int)),
        decreases bytes@.len() - j,
    {
        hash = (hash ^ (bytes[j] as u64)).wrapping_mul(FNV_PRIME);
        assert(bytes@.take(j + 1).drop_last() =~= bytes@.take(j as int));
        j += 1;
    }
    assert(bytes@.take(bytes@.len() as int) =~= bytes@);
    hash
}

/// The snapshot file name for a buffer at `abs_path`: 16 hex digits of the
/// FNV-1a hash of the path's UTF-8 bytes, then `.json`.
pub open spec fn snapshot_name(abs_path: Seq<char>) -> Seq<char> {
    hex_digits(fnv_fold(FNV_OFFSET, vstd::utf8::encode_utf8(abs_path)) as nat, 16) + ".json"@
}

/// The snapshot file name for the buffer at `abs_path`.
pub fn snapshot_file_name(abs_path: &str) -> (name: String)
    ensures
        name@ == snapshot_name(abs_path@),
{
    let hash = fnv1a64(abs_path.as_bytes());
    let mut name = String::new();
    push_hex(&mut name, hash, 16);
    name.append(".json");
    assert(name@ =~= snapshot_name(abs_path@));
    name
}

/// `base` joined with the relative path `rest`, as a unix path: with a `/`
/// between them unless `base` is empty or already ends in one.
pub open spec fn path_join(base: Seq<char>, rest: Seq<char>) -> Seq<char> {
    if base.len() == 0 {
        rest
    } else if base.last() == '/' {
        base + rest
    } else {
        base + seq!['/'] + rest
    }
}

fn join_path(base: &str, rest: &str) -> (joined: String)
    ensures
        joined@ == path_join(base@, rest@),
{
    let n = base.unicode_len();
    let mut joined = String::from_str(base);
    if n > 0 && base.get_char(n - 1) != '/' {
        joined.append("/");
        proof {
            reveal_strlit("/");
        }
        assert("/"@ =~= seq!['/']);
    }
    joined.append(rest);
    joined
}

/// Where the snapshot of the buffer at `abs_path` lives: the file named by
/// `snapshot_file_name` in `dirty_buffers` under the server state directory.
pub fn snapshot_path(server_state_dir: &str, abs_path: &str) -> (path: String)
    ensures
        path@ == path_join(path_join(server_state_dir@, "dirty_buffers"@), snapshot_name(abs_path@)),
{
    let dir = join_path(server_state_dir, "dirty_buffers");
    let name = snapshot_file_name(abs_path);
    join_path(dir.as_str(), name.as_str())
}

/// A dirty buffer's text as the daemon keeps it on disk.
pub struct DirtySnapshot {
    pub abs_path: String,
    pub text: String,
}

/// What becomes of a buffer's snapshot when the buffer changes.
pub enum SnapshotPlan {
    /// The buffer is clean: its snapshot file goes away.
    Remove { file_name: String },
    /// The buffer is dirty: its text is written to the snapshot file.
    Write { file_name: String, snapshot: DirtySnapshot },
}

/// The plan for the buffer at `abs_path`: keep its text while it is dirty,
/// drop the snapshot once it is not.
pub fn snapshot_plan(abs_path: &str, is_dirty: bool, text: String) -> (plan: SnapshotPlan)
    ensures
        is_dirty ==> (plan matches SnapshotPlan::Write { file_name, snapshot } && file_name@
            == snapshot_name(abs_path@) && snapshot.abs_path@ == abs_path@ && snapshot.text@ == text@),
        !is_dirty ==> (plan matches SnapshotPlan::Remove { file_name } && file_name@ == snapshot_name(
            abs_path@,
        )),
{
    let file_name = snapshot_file_name(abs_path);
    if is_dirty {
        SnapshotPlan::Write { file_name, snapshot: DirtySnapshot { abs_path: abs_path.to_owned(), text } }
    } else {
        SnapshotPlan::Remove { file_name }
    }
}

/// Whether a reopened buffer takes a snapshot's text: only when the buffer
/// has no edits of its own and its text differs.
pub fn should_restore(buffer_is_dirty: bool, buffer_text: &str, snapshot_text: &str) -> (r: bool)
    ensures
        r == (!buffer_is_dirty && buffer_text@ != snapshot_text@),
{
    if buffer_is_dirty {
        return false;
    }
    let current = buffer_text.to_owned();
    let saved = snapshot_text.to_owned();
    !(current == saved)
}

} // verus!
