//! The tracing method's error taxonomy and the decisions its
//! orchestration takes: where a block's traces come from, and how
//! executor failures are classified.
use crate::data::Transaction;
use crate::data::TransactionHash;
use crate::trace::GatewayTrace;
use crate::trace::TraceMappingError;
use crate::trace::TransactionTrace;
use crate::trace::trace_first_error;
use crate::trace::trace_maps_ok;
use crate::trace::trace_resources_in_range;
use vstd::prelude::*;

verus! {

/// How executing transactions can fail in the executor.
#[derive(Debug)]
pub enum TransactionExecutionError {
    ExecutionError { transaction_index: u64, error: String },
    Internal(String),
    Custom(String),
}

/// How building an execution state can fail.
#[derive(Debug)]
pub enum ExecutionStateError {
    BlockNotFound,
    Internal(String),
}

/// How the tracing method fails toward its caller.
#[derive(Debug)]
pub enum TraceBlockTransactionsError {
    Internal(String),
    Custom(String),
    BlockNotFound,
}

/// The application-level error a tracing failure surfaces as.
#[derive(Debug)]
pub enum ApplicationError {
    Internal(String),
    Custom(String),
    BlockNotFound,
}

impl From<TransactionExecutionError> for TraceBlockTransactionsError {
    /// An execution error at some transaction is the caller's problem; the
    /// executor's internal errors stay internal.
    fn from(value: TransactionExecutionError) -> (r: Self) {
        match value {
            TransactionExecutionError::ExecutionError { transaction_index: _, error } => {
                Self::Custom(error)
            },
            TransactionExecutionError::Internal(e) => Self::Internal(e),
            TransactionExecutionError::Custom(e) => Self::Custom(e),
        }
    }
}

impl vstd::std_specs::convert::FromSpecImpl<TransactionExecutionError> for TraceBlockTransactionsError {
    open spec fn obeys_from_spec() -> bool {
        true
    }

    open spec fn from_spec(v: TransactionExecutionError) -> Self {
        match v {
            TransactionExecutionError::ExecutionError { transaction_index: _, error } => {
                TraceBlockTransactionsError::Custom(error)
            },
            TransactionExecutionError::Internal(e) => TraceBlockTransactionsError::Internal(e),
            TransactionExecutionError::Custom(e) => TraceBlockTransactionsError::Custom(e),
        }
    }
}

impl From<ExecutionStateError> for TraceBlockTransactionsError {
    /// A missing block stays "block not found"; the rest stays internal.
    fn from(value: ExecutionStateError) -> (r: Self) {
        match value {
            ExecutionStateError::BlockNotFound => Self::BlockNotFound,
            ExecutionStateError::Internal(e) => Self::Internal(e),
        }
    }
}

impl vstd::std_specs::convert::FromSpecImpl<ExecutionStateError> for TraceBlockTransactionsError {
    open spec fn obeys_from_spec() -> bool {
        true
    }

    open spec fn from_spec(v: ExecutionStateError) -> Self {
        match v {
            ExecutionStateError::BlockNotFound => TraceBlockTransactionsError::BlockNotFound,
            ExecutionStateError::Internal(e) => TraceBlockTransactionsError::Internal(e),
        }
    }
}

impl From<TraceBlockTransactionsError> for ApplicationError {
    /// Tracing errors surface variant for variant.
    fn from(value: TraceBlockTransactionsError) -> (r: Self) {
        match value {
            TraceBlockTransactionsError::Internal(e) => Self::Internal(e),
            TraceBlockTransactionsError::BlockNotFound => Self::BlockNotFound,
            TraceBlockTransactionsError::Custom(e) => Self::Custom(e),
        }
    }
}

impl vstd::std_specs::convert::FromSpecImpl<TraceBlockTransactionsError> for ApplicationError {
    open spec fn obeys_from_spec() -> bool {
        true
    }

    open spec fn from_spec(v: TraceBlockTransactionsError) -> Self {
        match v {
            TraceBlockTransactionsError::Internal(e) => ApplicationError::Internal(e),
            TraceBlockTransactionsError::BlockNotFound => ApplicationError::BlockNotFound,
            TraceBlockTransactionsError::Custom(e) => ApplicationError::Custom(e),
        }
    }
}

/// Where a block's traces come from.
#[derive(Clone, Copy, PartialEq, Eq, Structural, Debug)]
pub enum TraceSource {
    Local,
    Gateway,
}

/// Decides where to trace a block: locally when its declared version
/// supports re-execution; otherwise from the gateway — which cannot serve
/// pending blocks.
pub fn plan_trace_source(block_is_pending: bool, version_supported: bool) -> (r: Result<
    TraceSource,
    TraceBlockTransactionsError,
>)
    ensures
        version_supported ==> r == Ok::<TraceSource, TraceBlockTransactionsError>(
            TraceSource::Local,
        ),
        !version_supported && !block_is_pending ==> r == Ok::<
            TraceSource,
            TraceBlockTransactionsError,
        >(TraceSource::Gateway),
        !version_supported && block_is_pending ==> (r matches Err(
            TraceBlockTransactionsError::Internal(m),
        ) && m@ == "Traces are not supported for pending blocks by the feeder gateway"@),
{
    if version_supported {
        Ok(TraceSource::Local)
    } else if block_is_pending {
        Err(
            TraceBlockTransactionsError::Internal(
                "Traces are not supported for pending blocks by the feeder gateway".to_owned(),
            ),
        )
    } else {
        Ok(TraceSource::Gateway)
    }
}

/// Classifies a failed local trace run: an execution error falls back to
/// the gateway; anything else fails the request as it stands.
pub fn classify_execution_error(e: TransactionExecutionError) -> (r: Option<
    TraceBlockTransactionsError,
>)
    ensures
        match e {
            TransactionExecutionError::ExecutionError { .. } => r is None,
            TransactionExecutionError::Internal(m) => r == Some(
                TraceBlockTransactionsError::Internal(m),
            ),
            TransactionExecutionError::Custom(m) => r == Some(
                TraceBlockTransactionsError::Custom(m),
            ),
        },
{
    match e {
        TransactionExecutionError::ExecutionError { .. } => None,
        TransactionExecutionError::Internal(m) => Some(TraceBlockTransactionsError::Internal(m)),
        TransactionExecutionError::Custom(m) => Some(TraceBlockTransactionsError::Custom(m)),
    }
}

/// What the tracing method returns: each transaction's hash with its
/// trace, and whether the traces carry state diffs — locally computed
/// traces do, traces fetched from the gateway cannot.
#[derive(Debug)]
pub struct TraceBlockTransactionsOutput {
    pub traces: Vec<(TransactionHash, TransactionTrace)>,
    pub include_state_diffs: bool,
}

/// Wraps locally computed traces; their state diffs are available.
pub fn local_trace_output(traces: Vec<(TransactionHash, TransactionTrace)>) -> (r:
    TraceBlockTransactionsOutput)
    ensures
        r.traces == traces,
        r.include_state_diffs,
{
    TraceBlockTransactionsOutput { traces, include_state_diffs: true }
}

/// Wraps traces taken from the gateway; state diffs are not available
/// there.
pub fn gateway_trace_output(traces: Vec<(TransactionHash, TransactionTrace)>) -> (r:
    TraceBlockTransactionsOutput)
    ensures
        r.traces == traces,
        !r.include_state_diffs,
{
    TraceBlockTransactionsOutput { traces, include_state_diffs: false }
}

/// The first gateway trace of the zipped pairs that cannot be mapped.
pub open spec fn traces_first_error(
    txs: Seq<Transaction>,
    ts: Seq<GatewayTrace>,
    i: int,
) -> Option<TraceMappingError>
    decreases ts.len() - i,
{
    if i < 0 || i >= ts.len() || i >= txs.len() {
        None
    } else {
        match trace_first_error(txs[i].variant, ts[i]) {
            Some(e) => Some(e),
            None => traces_first_error(txs, ts, i + 1),
        }
    }
}

/// Pairs the gateway's traces with the block's transactions, mapping each
/// trace to the executor's form; the pairing stops at the shorter list.
pub fn assemble_gateway_traces(transactions: &Vec<Transaction>, traces: Vec<GatewayTrace>) -> (r:
    Result<Vec<(TransactionHash, TransactionTrace)>, TraceMappingError>)
    requires
        forall|j: int| 0 <= j < traces@.len() ==> trace_resources_in_range(#[trigger] traces@[j]),
    ensures
        ({
            let n = if traces@.len() < transactions@.len() {
                traces@.len() as int
            } else {
                transactions@.len() as int
            };
            match r {
                Ok(v) => traces_first_error(transactions@, traces@, 0) is None && v@.len() == n
                    && forall|j: int|
                    0 <= j < n ==> (#[trigger] v@[j]).0 == transactions@[j].hash && trace_maps_ok(
                        transactions@[j].variant,
                        traces@[j],
                        v@[j].1,
                    ),
                Err(e) => traces_first_error(transactions@, traces@, 0) == Some(e),
            }
        }),
{
    let ghost txs0 = transactions@;
    let ghost ts0 = traces@;
    let n: usize = if traces.len() < transactions.len() {
        traces.len()
    } else {
        transactions.len()
    };
    let mut remaining = traces;
    let mut out: Vec<(TransactionHash, TransactionTrace)> = Vec::new();
    let mut i: usize = 0;
    proof {
        assert(ts0.skip(0) =~= ts0);
    }
    while i < n
        invariant
            i <= n,
            txs0 == transactions@,
            ts0 == traces@,
            n == (if ts0.len() < txs0.len() {
                ts0.len()
            } else {
                txs0.len()
            }),
            remaining@ == ts0.skip(i as int),
            out@.len() == i,
            traces_first_error(txs0, ts0, 0) == traces_first_error(txs0, ts0, i as int),
            forall|j: int|
                0 <= j < i ==> (#[trigger] out@[j]).0 == txs0[j].hash && trace_maps_ok(
                    txs0[j].variant,
                    ts0[j],
                    out@[j].1,
                ),
            forall|j: int| 0 <= j < ts0.len() ==> trace_resources_in_range(#[trigger] ts0[j]),
        decreases n - i,
    {
        let t = remaining.remove(0);
        proof {
            assert(t == ts0[i as int]);
            assert(remaining@ =~= ts0.skip(i + 1));
        }
        match crate::trace::map_gateway_trace(transactions[i], t) {
            Ok(tt) => {
                out.push((transactions[i].hash, tt));
            },
            Err(e) => {
                proof {
                    assert(traces_first_error(txs0, ts0, i as int) == Some(e));
                }
                return Err(e);
            },
        }
        i = i + 1;
    }
    proof {
        assert(traces_first_error(txs0, ts0, n as int) is None);
    }
    Ok(out)
}

} // verus!
