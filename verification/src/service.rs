//! The service-call deletion strategy: one native trash-relocation
//! call per path, in input order, stopping at the first failure.
//!
//! The native service itself lives outside this crate; what lives here
//! is every decision around it. A batch value holds the ordered paths
//! and their text forms, hands out exactly one call at a time, turns
//! each reported new location into a trashed-item record, and shapes
//! the error when a call is rejected. Whoever runs the calls performs
//! one, reports the outcome, and asks for the next; paths after a
//! failed one are never handed out, so they are never touched.

use vstd::prelude::*;

use crate::codec::{spec_encode, encode_batch};
use crate::error::Error;
use crate::item::{TrashedItem, copy_bytes, item_matches, trashed_item_for};

verus! {

/// One batch of service calls in flight: the ordered paths, their text
/// forms, and the records of every call that has succeeded so far.
#[derive(Debug)]
pub struct ServiceBatch {
    paths: Vec<Vec<u8>>,
    texts: Vec<Vec<u8>>,
    items: Vec<TrashedItem>,
}

impl ServiceBatch {
    /// The ordered pre-deletion paths of the batch.
    pub closed spec fn spec_paths(&self) -> Seq<Seq<u8>> {
        self.paths.deep_view()
    }

    /// The text form of each path, in the same order.
    pub closed spec fn spec_texts(&self) -> Seq<Seq<u8>> {
        self.texts.deep_view()
    }

    /// The records built so far, one per completed call, in order.
    pub closed spec fn spec_items(&self) -> Seq<TrashedItem> {
        self.items@
    }

    /// What every batch maintains: a text form per path, each the
    /// codec's encoding of its non-empty path, and one record per
    /// completed call describing exactly the path at its position.
    pub open spec fn wf(&self) -> bool {
        &&& self.spec_texts().len() == self.spec_paths().len()
        &&& self.spec_items().len() <= self.spec_paths().len()
        &&& forall|i: int|
            0 <= i < self.spec_paths().len() ==> (#[trigger] self.spec_paths()[i]).len() > 0
        &&& forall|i: int|
            0 <= i < self.spec_paths().len() ==> #[trigger] self.spec_texts()[i] == spec_encode(
                self.spec_paths()[i],
            )
        &&& forall|i: int|
            0 <= i < self.spec_items().len() ==> item_matches(
                #[trigger] self.spec_items()[i],
                self.spec_paths()[i],
            )
    }

    /// Prepares a batch: encodes every path up front, in order.
    /// Rejects an empty path — the text a service call requires cannot
    /// represent it — with a conversion error naming the first such
    /// path, before any call is handed out.
    pub fn new(full_paths: Vec<Vec<u8>>) -> (r: Result<ServiceBatch, Error>)
        ensures
            match r {
                Ok(b) => {
                    &&& b.wf()
                    &&& b.spec_paths() == full_paths.deep_view()
                    &&& b.spec_items().len() == 0
                },
                Err(e) => exists|k: int|
                    {
                        &&& 0 <= k < full_paths.deep_view().len()
                        &&& (#[trigger] full_paths.deep_view()[k]).len() == 0
                        &&& (e matches Error::Conversion { path } && path@
                            == full_paths.deep_view()[k])
                        &&& forall|j: int| 0 <= j < k ==> full_paths.deep_view()[j].len() > 0
                    },
            },
            r is Ok <==> (forall|i: int|
                0 <= i < full_paths.deep_view().len() ==> (#[trigger] full_paths.deep_view()[i]).len()
                    > 0),
    {
        let texts = match encode_batch(&full_paths) {
            Ok(t) => t,
            Err(e) => {
                return Err(e);
            },
        };
        let b = ServiceBatch { paths: full_paths, texts, items: Vec::new() };
        proof {
            assert(b.spec_items() =~= Seq::<TrashedItem>::empty());
            assert(forall|i: int|
                0 <= i < b.spec_paths().len() ==> #[trigger] b.spec_texts()[i] == spec_encode(
                    b.spec_paths()[i],
                ));
        }
        Ok(b)
    }

    /// How many calls have succeeded so far.
    pub fn completed(&self) -> (r: usize)
        ensures
            r == self.spec_items().len(),
    {
        self.items.len()
    }

    /// Whether every path in the batch has been relocated.
    pub fn is_finished(&self) -> (r: bool)
        ensures
            r <==> self.spec_items().len() == self.spec_paths().len(),
    {
        self.items.len() == self.paths.len()
    }

    /// The text form to hand to the native service next: always the
    /// first path that has no record yet.
    pub fn next_text(&self) -> (r: &Vec<u8>)
        requires
            self.wf(),
            self.spec_items().len() < self.spec_paths().len(),
        ensures
            r@ == spec_encode(self.spec_paths()[self.spec_items().len() as int]),
    {
        let k = self.items.len();
        proof {
            assert(self.texts@[k as int].deep_view() =~= self.texts@[k as int]@);
            assert(self.spec_texts()[k as int] == spec_encode(self.spec_paths()[k as int]));
        }
        &self.texts[k]
    }

    /// Records the reported new location of the path whose call just
    /// succeeded and builds its record: the reported location as-is
    /// (renamed or not), name and original parent from the pre-move
    /// path.
    pub fn record_success(&mut self, id: Vec<u8>, time_deleted: i64)
        requires
            old(self).wf(),
            old(self).spec_items().len() < old(self).spec_paths().len(),
        ensures
            final(self).wf(),
            final(self).spec_paths() == old(self).spec_paths(),
            final(self).spec_texts() == old(self).spec_texts(),
            final(self).spec_items().len() == old(self).spec_items().len() + 1,
            final(self).spec_items().take(old(self).spec_items().len() as int) == old(
                self,
            ).spec_items(),
            ({
                let it = final(self).spec_items().last();
                &&& it.id@ == id@
                &&& it.time_deleted == time_deleted
                &&& item_matches(it, old(self).spec_paths()[old(self).spec_items().len() as int])
            }),
    {
        let k = self.items.len();
        assert(self.paths[k as int]@ == self.spec_paths()[k as int]);
        let item = trashed_item_for(&self.paths[k], id, time_deleted);
        self.items.push(item);
        proof {
            assert(final(self).spec_items().take(k as int) =~= old(self).spec_items());
        }
    }

    /// Shapes the error for a call the native service rejected: it
    /// names the path the failed call was for. Nothing after that path
    /// has been handed out, so nothing after it was touched.
    pub fn fail_current(&self, description: Vec<u8>) -> (e: Error)
        requires
            self.wf(),
            self.spec_items().len() < self.spec_paths().len(),
        ensures
            e matches Error::Service { path, description: d } && path@ == self.spec_paths()[
                self.spec_items().len() as int] && d@ == description@,
    {
        let k = self.items.len();
        assert(self.paths[k as int]@ == self.spec_paths()[k as int]);
        let path = copy_bytes(&self.paths[k]);
        Error::Service { path, description }
    }

    /// Hands the finished batch's records to the caller, one per input
    /// path, in input order.
    pub fn into_items(self) -> (r: Vec<TrashedItem>)
        requires
            self.wf(),
            self.spec_items().len() == self.spec_paths().len(),
        ensures
            r@ == self.spec_items(),
            r@.len() == self.spec_paths().len(),
            forall|i: int|
                0 <= i < r@.len() ==> item_matches(#[trigger] r@[i], self.spec_paths()[i]),
    {
        self.items
    }
}

/// Fail-fast dispatch: while the batch stands at its `k`-th call,
/// exactly the paths before `k` carry a record — in order, one each —
/// the call on offer is for path `k` and no later path has been handed
/// out. A failure at `k` therefore leaves every later path untouched.
pub proof fn lemma_service_fail_fast(b: ServiceBatch, k: int)
    requires
        b.wf(),
        b.spec_items().len() == k,
        0 <= k < b.spec_paths().len(),
    ensures
        b.spec_texts()[k] == spec_encode(b.spec_paths()[k]),
        forall|i: int| 0 <= i < k ==> item_matches(#[trigger] b.spec_items()[i], b.spec_paths()[i]),
{
}

/// Order preservation: a finished batch's records correspond one to
/// one, position by position, to the input paths — whatever new
/// locations the destination chose to report.
pub proof fn lemma_service_order_preserved(b: ServiceBatch)
    requires
        b.wf(),
        b.spec_items().len() == b.spec_paths().len(),
    ensures
        forall|i: int|
            0 <= i < b.spec_paths().len() ==> item_matches(
                #[trigger] b.spec_items()[i],
                b.spec_paths()[i],
            ),
{
}

} // verus!
