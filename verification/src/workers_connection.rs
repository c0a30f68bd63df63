//! The executer's handle on each worker. A transport would hold a channel
//! here; the verified core reaches a worker through its service value
//! directly, so a round is a plain call.

use vstd::prelude::*;

use crate::graph_store::WorkerId;
use crate::worker_service::WorkerService;

verus! {

/// One worker as the executer sees it: its identifier and its service.
pub struct Worker {
    pub id: WorkerId,
    pub service: WorkerService,
}

/// The executer's worker list is sorted by identifier, with no identifier
/// appearing twice, and every worker is well-formed.
pub open spec fn workers_wf(ws: Seq<Worker>) -> bool {
    &&& forall|i: int, j: int| 0 <= i < j < ws.len() ==> #[trigger] ws[i].id < #[trigger] ws[j].id
    &&& forall|i: int| 0 <= i < ws.len() ==> (#[trigger] ws[i].service).wf()
}

} // verus!
