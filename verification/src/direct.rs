//! The direct-move deletion strategy: relocate each entry by a plain
//! move into a designated trash directory, recording its pre-move
//! absolute path as sidecar metadata so a later restore tool can
//! recover where it came from.
//!
//! The move itself is a filesystem operation performed outside this
//! crate; what lives here is the plan for one entry — where it goes
//! and what is recorded on it — the record synthesized afterwards, and
//! the shape of a failed move's error. All record fields come from
//! values known before the move, since no external service reports
//! anything back for this strategy.

use vstd::prelude::*;

use crate::codec::{spec_encode, spec_decode, percent_encode, lemma_decode_encode};
use crate::error::Error;
use crate::item::{SEPARATOR, copy_bytes, push_all, spec_name_of, split_path};

verus! {

/// The sidecar metadata written on a moved entry: the text encoding of
/// its pre-move absolute path.
pub open spec fn spec_sidecar(p: Seq<u8>) -> Seq<u8> {
    spec_encode(p)
}

/// One planned move: which entry, where to, and what to record on it.
#[derive(Debug)]
pub struct MoveStep {
    /// The entry to move: its pre-move absolute path.
    pub source: Vec<u8>,
    /// Where the entry is asked to go: the trash directory plus the
    /// entry's name. The filesystem may still rename on collision;
    /// the record then carries the renamed location, not this one.
    pub destination: Vec<u8>,
    /// The sidecar value to record on the moved entry.
    pub sidecar: Vec<u8>,
}

/// Plans the move of one entry into the trash directory.
pub fn plan_direct_move(trash_dir: &Vec<u8>, path: &Vec<u8>) -> (r: MoveStep)
    requires
        trash_dir@.len() > 0,
        path@.len() > 0,
    ensures
        r.source@ == path@,
        r.destination@ == trash_dir@ + seq![SEPARATOR] + spec_name_of(path@),
        r.sidecar@ == spec_sidecar(path@),
{
    let (_parent, name) = split_path(path);
    let mut destination = copy_bytes(trash_dir);
    destination.push(SEPARATOR);
    proof {
        assert(destination@ =~= trash_dir@ + seq![SEPARATOR]);
    }
    push_all(&mut destination, &name);
    let sidecar = percent_encode(path);
    MoveStep { source: copy_bytes(path), destination, sidecar }
}

/// Shapes the error for a move the filesystem refused: it names the
/// path whose move failed, and the batch stops there.
pub fn move_failure(path: &Vec<u8>, description: Vec<u8>) -> (e: Error)
    ensures
        e matches Error::Move { path: p, description: d } && p@ == path@ && d@ == description@,
{
    Error::Move { path: copy_bytes(path), description }
}

/// The sidecar metadata written at move time decodes to the exact
/// pre-move absolute path, whatever bytes that path held.
pub proof fn lemma_sidecar_round_trip(p: Seq<u8>)
    ensures
        spec_decode(spec_sidecar(p)) == Some(p),
{
    lemma_decode_encode(p);
}

} // verus!
