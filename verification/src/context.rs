//! Deletion contexts and strategy dispatch.
//!
//! The caller chooses a deletion method ahead of time and stores it in
//! a reusable context value; every call re-reads that field — nothing
//! is cached across calls. Dispatch resolves one request into exactly
//! one strategy's prepared work: a batch of service calls, one
//! automation command, or a list of direct moves. The preparation —
//! validation, encoding, script building — happens here in full;
//! running the native calls is the embedding program's part.

use vstd::prelude::*;

use crate::codec::{spec_encoded_texts, encode_batch};
use crate::error::Error;
use crate::script::{spec_finder_script, build_finder_script};
use crate::service::ServiceBatch;

verus! {

/// The deletion strategies a context can be configured with.
#[derive(Copy, Clone, Debug)]
pub enum DeleteMethod {
    /// Ask the Finder application, through an automation script, to
    /// delete the whole batch in one invocation.
    ///
    /// - Might ask the user to give additional permissions to the app
    /// - Produces the sound that Finder usually makes when deleting a file
    /// - Shows the "Put Back" option in the context menu
    ///
    /// This is the default.
    Finder,
    /// Ask the native file-manager service to trash each item, one
    /// call per path.
    ///
    /// - Somewhat faster than the `Finder` method
    /// - Does *not* require additional permissions
    /// - Does *not* produce the sound that Finder usually makes when
    ///   deleting a file
    /// - Does *not* show the "Put Back" option on some systems
    NsFileManager,
    /// Move each item into the trash directory directly, storing its
    /// original path as sidecar metadata.
    ///
    /// - Somewhat faster than the `Finder` method
    /// - Does *not* require additional permissions
    /// - The least validated strategy
    Direct,
}

impl DeleteMethod {
    /// Returns `DeleteMethod::Finder`.
    pub fn new() -> (r: Self)
        ensures
            r is Finder,
    {
        DeleteMethod::Finder
    }

    /// The strategy's name.
    pub fn name(&self) -> (r: &'static str)
        ensures
            self is Finder ==> r@ == "Finder"@,
            self is NsFileManager ==> r@ == "NsFileManager"@,
            self is Direct ==> r@ == "Direct"@,
    {
        match self {
            DeleteMethod::Finder => "Finder",
            DeleteMethod::NsFileManager => "NsFileManager",
            DeleteMethod::Direct => "Direct",
        }
    }
}

impl Default for DeleteMethod {
    /// Returns `DeleteMethod::Finder`.
    fn default() -> (r: Self)
        ensures
            r is Finder,
    {
        DeleteMethod::new()
    }
}

/// The platform-specific part of a deletion context: the chosen
/// method.
#[derive(Clone, Debug)]
pub struct PlatformTrashContext {
    delete_method: DeleteMethod,
}

impl PlatformTrashContext {
    /// A context configured with the default method.
    pub fn new() -> (r: Self)
        ensures
            r.spec_delete_method() is Finder,
    {
        PlatformTrashContext { delete_method: DeleteMethod::new() }
    }

    /// The method this context is configured with.
    pub closed spec fn spec_delete_method(&self) -> DeleteMethod {
        self.delete_method
    }
}

impl Default for PlatformTrashContext {
    /// A context configured with the default method.
    fn default() -> (r: Self)
        ensures
            r.spec_delete_method() is Finder,
    {
        PlatformTrashContext::new()
    }
}

/// A reusable deletion context. The strategy is explicit, immutable
/// per call, and re-read from this value on every call.
#[derive(Clone, Debug)]
pub struct TrashContext {
    platform_specific: PlatformTrashContext,
}

impl Default for TrashContext {
    /// A context configured with the default method.
    fn default() -> (r: Self)
        ensures
            r.spec_delete_method() is Finder,
    {
        TrashContext { platform_specific: PlatformTrashContext::new() }
    }
}

/// Choosing and reading a context's deletion method.
pub trait TrashContextExtMacos {
    /// The configured method, as contracts see it.
    spec fn spec_delete_method(&self) -> DeleteMethod;

    /// Selects the deletion method used by later calls on this
    /// context.
    fn set_delete_method(&mut self, method: DeleteMethod)
        ensures
            final(self).spec_delete_method() == method,
    ;

    /// The currently configured deletion method.
    fn delete_method(&self) -> (m: DeleteMethod)
        ensures
            m == self.spec_delete_method(),
    ;
}

impl TrashContextExtMacos for TrashContext {
    closed spec fn spec_delete_method(&self) -> DeleteMethod {
        self.platform_specific.spec_delete_method()
    }

    fn set_delete_method(&mut self, method: DeleteMethod) {
        self.platform_specific.delete_method = method;
    }

    fn delete_method(&self) -> (m: DeleteMethod) {
        self.platform_specific.delete_method
    }
}

/// One deletion request, resolved: the prepared work of exactly one
/// strategy.
#[derive(Debug)]
pub enum DeletionPlan {
    /// One native service call per path, in order, ready to run.
    ServiceCalls(ServiceBatch),
    /// The single automation command covering the whole batch. The
    /// interface succeeds or fails for the batch as one, even though
    /// the underlying relocation of individual entries may be partial
    /// from the operating system's point of view — a known
    /// caller-visible asymmetry with the per-path strategies.
    AutomationScript(Vec<u8>),
    /// The validated paths to move directly, in order.
    DirectMoves(Vec<Vec<u8>>),
}

impl TrashContext {
    /// Resolves a request over already-canonicalized absolute paths
    /// against the configured method. Every path is validated — an
    /// empty one is rejected with a conversion error naming the first
    /// offender — and the chosen strategy's work is prepared in full:
    /// an encoded service-call batch, the complete automation command,
    /// or the list of moves. No strategy runs here, so a rejected
    /// batch never has partial work executed.
    pub fn delete_all_canonicalized(&self, full_paths: Vec<Vec<u8>>) -> (r: Result<
        DeletionPlan,
        Error,
    >)
        ensures
            r is Ok <==> (forall|i: int|
                0 <= i < full_paths.deep_view().len() ==> (#[trigger] full_paths.deep_view()[i]).len()
                    > 0),
            r matches Err(e) ==> (exists|k: int|
                {
                    &&& 0 <= k < full_paths.deep_view().len()
                    &&& (#[trigger] full_paths.deep_view()[k]).len() == 0
                    &&& (e matches Error::Conversion { path } && path@ == full_paths.deep_view()[k])
                    &&& forall|j: int| 0 <= j < k ==> full_paths.deep_view()[j].len() > 0
                }),
            r matches Ok(plan) ==> match self.spec_delete_method() {
                DeleteMethod::Finder => plan matches DeletionPlan::AutomationScript(s) && s@
                    == spec_finder_script(spec_encoded_texts(full_paths.deep_view())),
                DeleteMethod::NsFileManager => plan matches DeletionPlan::ServiceCalls(b) && b.wf()
                    && b.spec_paths() == full_paths.deep_view() && b.spec_items().len() == 0,
                DeleteMethod::Direct => plan matches DeletionPlan::DirectMoves(v) && v.deep_view()
                    == full_paths.deep_view(),
            },
    {
        match self.platform_specific.delete_method {
            DeleteMethod::Finder => {
                let texts = match encode_batch(&full_paths) {
                    Ok(t) => t,
                    Err(e) => {
                        return Err(e);
                    },
                };
                let script = build_finder_script(&texts);
                Ok(DeletionPlan::AutomationScript(script))
            },
            DeleteMethod::NsFileManager => {
                match ServiceBatch::new(full_paths) {
                    Ok(b) => Ok(DeletionPlan::ServiceCalls(b)),
                    Err(e) => Err(e),
                }
            },
            DeleteMethod::Direct => {
                match encode_batch(&full_paths) {
                    Ok(_texts) => Ok(DeletionPlan::DirectMoves(full_paths)),
                    Err(e) => Err(e),
                }
            },
        }
    }
}

} // verus!
