//! Transaction traces: the gateway's wire form of a trace, the executor's
//! richer form, and the verified mapping between the two that the tracing
//! method falls back to for old blocks.
use crate::data::Transaction;
use crate::data::TransactionHash;
use crate::data::TransactionVariant;
use crate::felt::Felt;
use vstd::prelude::*;

verus! {

/// The per-builtin application counters of one invocation.
#[derive(Clone, Copy, PartialEq, Eq, Debug, Default)]
pub struct BuiltinCounters {
    pub range_check_builtin: u64,
    pub pedersen_builtin: u64,
    pub poseidon_builtin: u64,
    pub ec_op_builtin: u64,
    pub ecdsa_builtin: u64,
    pub bitwise_builtin: u64,
    pub keccak_builtin: u64,
    pub segment_arena_builtin: u64,
}

/// Gas consumed by one invocation, as the gateway reports it.
#[derive(Clone, Copy, PartialEq, Eq, Debug, Default)]
pub struct GasVector {
    pub l1_gas: u128,
    pub l1_data_gas: u128,
    pub l2_gas: Option<u128>,
}

/// The execution resources of one invocation, as the gateway reports
/// them.
#[derive(Clone, Copy, PartialEq, Eq, Debug, Default)]
pub struct GatewayExecutionResources {
    pub n_steps: u64,
    pub n_memory_holes: u64,
    pub builtin_instance_counter: BuiltinCounters,
    pub total_gas_consumed: Option<GasVector>,
}

/// How one contract call was made.
#[derive(Clone, Copy, PartialEq, Eq, Structural, Debug)]
pub enum CallType {
    Call,
    Delegate,
}

/// Which kind of entry point one call entered.
#[derive(Clone, Copy, PartialEq, Eq, Structural, Debug)]
pub enum EntryPointType {
    Constructor,
    External,
    L1Handler,
}

/// An event with its emission order, as invocations carry it.
#[derive(Clone, Debug)]
pub struct OrderedEvent {
    pub order: u64,
    pub data: Vec<Felt>,
    pub keys: Vec<Felt>,
}

/// A message to L1 with its emission order, as the gateway reports it.
#[derive(Clone, Debug)]
pub struct OrderedMessage {
    pub order: u64,
    pub payload: Vec<Felt>,
    pub to_address: Felt,
}

/// One call in a trace, as the gateway reports it. Selector, call type
/// and entry-point type are optional on the wire.
#[derive(Debug)]
pub struct GatewayInvocation {
    pub calldata: Vec<Felt>,
    pub contract_address: Felt,
    pub selector: Option<Felt>,
    pub call_type: Option<CallType>,
    pub caller_address: Felt,
    pub internal_calls: Vec<GatewayInvocation>,
    pub class_hash: Option<Felt>,
    pub entry_point_type: Option<EntryPointType>,
    pub events: Vec<OrderedEvent>,
    pub messages: Vec<OrderedMessage>,
    pub result: Vec<Felt>,
    pub execution_resources: GatewayExecutionResources,
}

/// A transaction's trace, as the gateway reports it.
#[derive(Debug)]
pub struct GatewayTrace {
    pub validate_invocation: Option<GatewayInvocation>,
    pub function_invocation: Option<GatewayInvocation>,
    pub fee_transfer_invocation: Option<GatewayInvocation>,
    pub revert_error: Option<Vec<u8>>,
}

/// The executor's computation-resource counters.
#[derive(Clone, Copy, PartialEq, Eq, Structural, Debug, Default)]
pub struct ComputationResources {
    pub steps: u64,
    pub memory_holes: u64,
    pub range_check_builtin_applications: u64,
    pub pedersen_builtin_applications: u64,
    pub poseidon_builtin_applications: u64,
    pub ec_op_builtin_applications: u64,
    pub ecdsa_builtin_applications: u64,
    pub bitwise_builtin_applications: u64,
    pub keccak_builtin_applications: u64,
    pub segment_arena_builtin: u64,
}

/// Gas charged to data availability; the gateway trace does not carry it.
#[derive(Clone, Copy, PartialEq, Eq, Structural, Debug, Default)]
pub struct DataAvailabilityResources {
    pub l1_gas: u128,
    pub l1_data_gas: u128,
}

/// The executor's per-transaction execution resources.
#[derive(Clone, Copy, PartialEq, Eq, Structural, Debug, Default)]
pub struct ExecutionResources {
    pub computation_resources: ComputationResources,
    pub data_availability: DataAvailabilityResources,
    pub l1_gas: u128,
    pub l1_data_gas: u128,
    pub l2_gas: u128,
}

/// The gas charged to one inner call.
#[derive(Clone, Copy, PartialEq, Eq, Structural, Debug, Default)]
pub struct InnerCallExecutionResources {
    pub l1_gas: u128,
    pub l2_gas: u128,
}

/// An event as the executor's traces carry it.
#[derive(Clone, Debug)]
pub struct TraceEvent {
    pub order: u64,
    pub data: Vec<Felt>,
    pub keys: Vec<Felt>,
}

/// A message to L1 as the executor's traces carry it.
#[derive(Clone, Debug)]
pub struct MsgToL1 {
    pub order: u64,
    pub payload: Vec<Felt>,
    pub to_address: Felt,
    pub from_address: Felt,
}

/// One call in a trace, in the executor's form.
#[derive(Debug)]
pub struct FunctionInvocation {
    pub calldata: Vec<Felt>,
    pub contract_address: Felt,
    pub selector: Felt,
    pub call_type: CallType,
    pub caller_address: Felt,
    pub internal_calls: Vec<FunctionInvocation>,
    pub class_hash: Option<Felt>,
    pub entry_point_type: EntryPointType,
    pub events: Vec<TraceEvent>,
    pub messages: Vec<MsgToL1>,
    pub result: Vec<Felt>,
    pub computation_resources: ComputationResources,
    pub execution_resources: InnerCallExecutionResources,
}

/// How an invoke transaction's execute phase ended.
#[derive(Debug)]
pub enum ExecuteInvocation {
    FunctionInvocation(Option<FunctionInvocation>),
    RevertedReason(Vec<u8>),
}

/// The trace of a declare transaction.
#[derive(Debug)]
pub struct DeclareTransactionTrace {
    pub fee_transfer_invocation: Option<FunctionInvocation>,
    pub validate_invocation: Option<FunctionInvocation>,
    pub execution_resources: ExecutionResources,
}

/// The trace of a deploy or deploy-account transaction.
#[derive(Debug)]
pub struct DeployAccountTransactionTrace {
    pub constructor_invocation: Option<FunctionInvocation>,
    pub fee_transfer_invocation: Option<FunctionInvocation>,
    pub validate_invocation: Option<FunctionInvocation>,
    pub execution_resources: ExecutionResources,
}

/// The trace of an invoke transaction.
#[derive(Debug)]
pub struct InvokeTransactionTrace {
    pub execute_invocation: ExecuteInvocation,
    pub fee_transfer_invocation: Option<FunctionInvocation>,
    pub validate_invocation: Option<FunctionInvocation>,
    pub execution_resources: ExecutionResources,
}

/// The trace of an L1 handler transaction.
#[derive(Debug)]
pub struct L1HandlerTransactionTrace {
    pub function_invocation: Option<FunctionInvocation>,
    pub execution_resources: ExecutionResources,
}

/// A transaction's trace, in the executor's form.
#[derive(Debug)]
pub enum TransactionTrace {
    Declare(DeclareTransactionTrace),
    DeployAccount(DeployAccountTransactionTrace),
    Invoke(InvokeTransactionTrace),
    L1Handler(L1HandlerTransactionTrace),
}

/// A field without which a gateway invocation cannot be mapped.
#[derive(Clone, Copy, PartialEq, Eq, Structural, Debug)]
pub enum TraceMappingError {
    MissingSelector,
    MissingCallType,
    MissingEntryPointType,
}

/// The executor counters carry the gateway counters over unchanged.
pub open spec fn computation_resources_of(r: GatewayExecutionResources) -> ComputationResources {
    ComputationResources {
        steps: r.n_steps,
        memory_holes: r.n_memory_holes,
        range_check_builtin_applications: r.builtin_instance_counter.range_check_builtin,
        pedersen_builtin_applications: r.builtin_instance_counter.pedersen_builtin,
        poseidon_builtin_applications: r.builtin_instance_counter.poseidon_builtin,
        ec_op_builtin_applications: r.builtin_instance_counter.ec_op_builtin,
        ecdsa_builtin_applications: r.builtin_instance_counter.ecdsa_builtin,
        bitwise_builtin_applications: r.builtin_instance_counter.bitwise_builtin,
        keccak_builtin_applications: r.builtin_instance_counter.keccak_builtin,
        segment_arena_builtin: r.builtin_instance_counter.segment_arena_builtin,
    }
}

/// Maps one invocation's resource counters to the executor's form.
pub fn map_gateway_computation_resources(resources: GatewayExecutionResources) -> (r:
    ComputationResources)
    ensures
        r == computation_resources_of(resources),
{
    ComputationResources {
        steps: resources.n_steps,
        memory_holes: resources.n_memory_holes,
        range_check_builtin_applications: resources.builtin_instance_counter.range_check_builtin,
        pedersen_builtin_applications: resources.builtin_instance_counter.pedersen_builtin,
        poseidon_builtin_applications: resources.builtin_instance_counter.poseidon_builtin,
        ec_op_builtin_applications: resources.builtin_instance_counter.ec_op_builtin,
        ecdsa_builtin_applications: resources.builtin_instance_counter.ecdsa_builtin,
        bitwise_builtin_applications: resources.builtin_instance_counter.bitwise_builtin,
        keccak_builtin_applications: resources.builtin_instance_counter.keccak_builtin,
        segment_arena_builtin: resources.builtin_instance_counter.segment_arena_builtin,
    }
}

/// The gas an inner call is charged: its reported L1 gas; L2 gas is not
/// derivable from a gateway trace and stays zero.
pub open spec fn inner_resources_of(r: GatewayExecutionResources) -> InnerCallExecutionResources {
    InnerCallExecutionResources {
        l1_gas: match r.total_gas_consumed {
            Some(g) => g.l1_gas,
            None => 0,
        },
        l2_gas: 0,
    }
}

/// The first field missing from this invocation or its inner calls, in
/// the order the mapping reads them.
pub open spec fn invocation_first_error(inv: GatewayInvocation) -> Option<TraceMappingError>
    decreases inv,
{
    if inv.selector is None {
        Some(TraceMappingError::MissingSelector)
    } else if inv.call_type is None {
        Some(TraceMappingError::MissingCallType)
    } else {
        match invocations_first_error(inv.internal_calls@, 0) {
            Some(e) => Some(e),
            None => if inv.entry_point_type is None {
                Some(TraceMappingError::MissingEntryPointType)
            } else {
                None
            },
        }
    }
}

/// The first field missing from the calls at or after position `i`.
pub open spec fn invocations_first_error(list: Seq<GatewayInvocation>, i: int) -> Option<
    TraceMappingError,
>
    decreases list, list.len() - i,
{
    if i < 0 || i >= list.len() {
        None
    } else {
        match invocation_first_error(list[i]) {
            Some(e) => Some(e),
            None => invocations_first_error(list, i + 1),
        }
    }
}

pub open spec fn trace_event_ok(s: OrderedEvent, d: TraceEvent) -> bool {
    d.order == s.order && d.data@ == s.data@ && d.keys@ == s.keys@
}

pub open spec fn trace_message_ok(s: OrderedMessage, d: MsgToL1, from: Felt) -> bool {
    d.order == s.order && d.payload@ == s.payload@ && d.to_address == s.to_address
        && d.from_address == from
}

/// The executor invocation carries the gateway invocation over: same call
/// data, addresses, events and messages, inner calls mapped in order, and
/// the resources converted.
pub open spec fn invocation_maps_ok(src: GatewayInvocation, dst: FunctionInvocation) -> bool
    decreases src,
{
    &&& dst.calldata@ == src.calldata@
    &&& dst.contract_address == src.contract_address
    &&& src.selector == Some(dst.selector)
    &&& src.call_type == Some(dst.call_type)
    &&& dst.caller_address == src.caller_address
    &&& dst.class_hash == src.class_hash
    &&& src.entry_point_type == Some(dst.entry_point_type)
    &&& dst.internal_calls@.len() == src.internal_calls@.len()
    &&& invocations_map_ok(src.internal_calls@, dst.internal_calls@, 0)
    &&& dst.events@.len() == src.events@.len()
    &&& forall|j: int|
        0 <= j < src.events@.len() ==> trace_event_ok(#[trigger] src.events@[j], dst.events@[j])
    &&& dst.messages@.len() == src.messages@.len()
    &&& forall|j: int|
        0 <= j < src.messages@.len() ==> trace_message_ok(
            #[trigger] src.messages@[j],
            dst.messages@[j],
            src.contract_address,
        )
    &&& dst.result@ == src.result@
    &&& dst.computation_resources == computation_resources_of(src.execution_resources)
    &&& dst.execution_resources == inner_resources_of(src.execution_resources)
}

/// The calls at or after position `i` map over pairwise.
pub open spec fn invocations_map_ok(
    ss: Seq<GatewayInvocation>,
    ds: Seq<FunctionInvocation>,
    i: int,
) -> bool
    decreases ss, ss.len() - i,
{
    if i < 0 || i >= ss.len() {
        true
    } else {
        (i < ds.len() && invocation_maps_ok(ss[i], ds[i])) && invocations_map_ok(ss, ds, i + 1)
    }
}

proof fn lemma_invocations_map_from_forall(
    ss: Seq<GatewayInvocation>,
    ds: Seq<FunctionInvocation>,
    i: int,
)
    requires
        ds.len() == ss.len(),
        0 <= i,
        forall|k: int| i <= k < ss.len() ==> invocation_maps_ok(#[trigger] ss[k], ds[k]),
    ensures
        invocations_map_ok(ss, ds, i),
    decreases ss.len() - i,
{
    if i < ss.len() {
        lemma_invocations_map_from_forall(ss, ds, i + 1);
    }
}

fn clone_trace_events(v: &Vec<OrderedEvent>) -> (r: Vec<TraceEvent>)
    ensures
        r@.len() == v@.len(),
        forall|j: int| 0 <= j < v@.len() ==> trace_event_ok(#[trigger] v@[j], r@[j]),
{
    let mut r: Vec<TraceEvent> = Vec::new();
    let mut i: usize = 0;
    while i < v.len()
        invariant
            i <= v@.len(),
            r@.len() == i,
            forall|j: int| 0 <= j < i ==> trace_event_ok(#[trigger] v@[j], r@[j]),
        decreases v@.len() - i,
    {
        r.push(
            TraceEvent {
                order: v[i].order,
                data: crate::data::copy_vec(&v[i].data),
                keys: crate::data::copy_vec(&v[i].keys),
            },
        );
        i = i + 1;
    }
    r
}

fn clone_trace_messages(v: &Vec<OrderedMessage>, from: Felt) -> (r: Vec<MsgToL1>)
    ensures
        r@.len() == v@.len(),
        forall|j: int| 0 <= j < v@.len() ==> trace_message_ok(#[trigger] v@[j], r@[j], from),
{
    let mut r: Vec<MsgToL1> = Vec::new();
    let mut i: usize = 0;
    while i < v.len()
        invariant
            i <= v@.len(),
            r@.len() == i,
            forall|j: int| 0 <= j < i ==> trace_message_ok(#[trigger] v@[j], r@[j], from),
        decreases v@.len() - i,
    {
        r.push(
            MsgToL1 {
                order: v[i].order,
                payload: crate::data::copy_vec(&v[i].payload),
                to_address: v[i].to_address,
                from_address: from,
            },
        );
        i = i + 1;
    }
    r
}

/// Maps one gateway invocation, and its inner calls recursively, to the
/// executor's form; fails on the first missing field.
pub fn map_gateway_function_invocation(invocation: &GatewayInvocation) -> (r: Result<
    FunctionInvocation,
    TraceMappingError,
>)
    ensures
        match r {
            Ok(f) => invocation_first_error(*invocation) is None && invocation_maps_ok(
                *invocation,
                f,
            ),
            Err(e) => invocation_first_error(*invocation) == Some(e),
        },
    decreases *invocation,
{
    let selector = match &invocation.selector {
        Some(s) => *s,
        None => {
            return Err(TraceMappingError::MissingSelector);
        },
    };
    let call_type = match &invocation.call_type {
        Some(c) => *c,
        None => {
            return Err(TraceMappingError::MissingCallType);
        },
    };
    let ghost ss = invocation.internal_calls@;
    let mut internal_calls: Vec<FunctionInvocation> = Vec::new();
    let mut j: usize = 0;
    while j < invocation.internal_calls.len()
        invariant
            j <= ss.len(),
            ss == invocation.internal_calls@,
            invocation.selector is Some,
            invocation.call_type is Some,
            internal_calls@.len() == j,
            invocations_first_error(ss, 0) == invocations_first_error(ss, j as int),
            forall|k: int|
                0 <= k < j ==> invocation_maps_ok(#[trigger] ss[k], internal_calls@[k]),
        decreases ss.len() - j,
    {
        proof {
            assert(invocation.internal_calls@[j as int] == ss[j as int]);
        }
        match map_gateway_function_invocation(&invocation.internal_calls[j]) {
            Ok(f) => {
                internal_calls.push(f);
            },
            Err(e) => {
                proof {
                    assert(invocations_first_error(ss, j as int) == Some(e));
                }
                return Err(e);
            },
        }
        j = j + 1;
    }
    proof {
        assert(invocations_first_error(ss, ss.len() as int) is None);
    }
    let entry_point_type = match &invocation.entry_point_type {
        Some(t) => *t,
        None => {
            return Err(TraceMappingError::MissingEntryPointType);
        },
    };
    let from = invocation.contract_address;
    let result = FunctionInvocation {
        calldata: crate::data::copy_vec(&invocation.calldata),
        contract_address: invocation.contract_address,
        selector,
        call_type,
        caller_address: invocation.caller_address,
        internal_calls,
        class_hash: invocation.class_hash,
        entry_point_type,
        events: clone_trace_events(&invocation.events),
        messages: clone_trace_messages(&invocation.messages, from),
        result: crate::data::copy_vec(&invocation.result),
        computation_resources: map_gateway_computation_resources(invocation.execution_resources),
        execution_resources: InnerCallExecutionResources {
            l1_gas: match &invocation.execution_resources.total_gas_consumed {
                Some(gas) => gas.l1_gas,
                None => 0,
            },
            l2_gas: 0,
        },
    };
    proof {
        lemma_invocations_map_from_forall(ss, result.internal_calls@, 0);
    }
    Ok(result)
}

/// The resources of an optional invocation; all zero when it is absent.
pub open spec fn gw_res(o: Option<GatewayInvocation>) -> GatewayExecutionResources {
    match o {
        Some(i) => i.execution_resources,
        None => GatewayExecutionResources {
            n_steps: 0,
            n_memory_holes: 0,
            builtin_instance_counter: BuiltinCounters {
                range_check_builtin: 0,
                pedersen_builtin: 0,
                poseidon_builtin: 0,
                ec_op_builtin: 0,
                ecdsa_builtin: 0,
                bitwise_builtin: 0,
                keccak_builtin: 0,
                segment_arena_builtin: 0,
            },
            total_gas_consumed: None,
        },
    }
}

pub open spec fn gas_l1(r: GatewayExecutionResources) -> u128 {
    match r.total_gas_consumed {
        Some(g) => g.l1_gas,
        None => 0,
    }
}

pub open spec fn gas_l1_data(r: GatewayExecutionResources) -> u128 {
    match r.total_gas_consumed {
        Some(g) => g.l1_data_gas,
        None => 0,
    }
}

pub open spec fn gas_l2(r: GatewayExecutionResources) -> u128 {
    match r.total_gas_consumed {
        Some(g) => match g.l2_gas {
            Some(x) => x,
            None => 0,
        },
        None => 0,
    }
}

/// The per-transaction sums of the three top-level invocations' resources
/// stay within their machine types.
pub open spec fn trace_resources_in_range(t: GatewayTrace) -> bool {
    let v = gw_res(t.validate_invocation);
    let f = gw_res(t.function_invocation);
    let ft = gw_res(t.fee_transfer_invocation);
    let vb = v.builtin_instance_counter;
    let fb = f.builtin_instance_counter;
    let ftb = ft.builtin_instance_counter;
    &&& v.n_steps + f.n_steps + ft.n_steps <= u64::MAX
    &&& v.n_memory_holes + f.n_memory_holes + ft.n_memory_holes <= u64::MAX
    &&& vb.range_check_builtin + fb.range_check_builtin + ftb.range_check_builtin <= u64::MAX
    &&& vb.pedersen_builtin + fb.pedersen_builtin + ftb.pedersen_builtin <= u64::MAX
    &&& vb.poseidon_builtin + fb.poseidon_builtin + ftb.poseidon_builtin <= u64::MAX
    &&& vb.ec_op_builtin + fb.ec_op_builtin + ftb.ec_op_builtin <= u64::MAX
    &&& vb.ecdsa_builtin + fb.ecdsa_builtin + ftb.ecdsa_builtin <= u64::MAX
    &&& vb.bitwise_builtin + fb.bitwise_builtin + ftb.bitwise_builtin <= u64::MAX
    &&& vb.keccak_builtin + fb.keccak_builtin + ftb.keccak_builtin <= u64::MAX
    &&& vb.segment_arena_builtin + fb.segment_arena_builtin + ftb.segment_arena_builtin
        <= u64::MAX
    &&& gas_l1(v) + gas_l1(f) + gas_l1(ft) <= u128::MAX
    &&& gas_l1_data(v) + gas_l1_data(f) + gas_l1_data(ft) <= u128::MAX
    &&& gas_l2(v) + gas_l2(f) + gas_l2(ft) <= u128::MAX
}

/// The execution resources of a whole transaction: the three top-level
/// invocations' resources summed; data-availability figures are not in a
/// gateway trace and stay zero.
pub open spec fn execution_resources_of(t: GatewayTrace) -> ExecutionResources {
    let v = gw_res(t.validate_invocation);
    let f = gw_res(t.function_invocation);
    let ft = gw_res(t.fee_transfer_invocation);
    let vb = v.builtin_instance_counter;
    let fb = f.builtin_instance_counter;
    let ftb = ft.builtin_instance_counter;
    ExecutionResources {
        computation_resources: ComputationResources {
            steps: (v.n_steps + f.n_steps + ft.n_steps) as u64,
            memory_holes: (v.n_memory_holes + f.n_memory_holes + ft.n_memory_holes) as u64,
            range_check_builtin_applications: (vb.range_check_builtin + fb.range_check_builtin
                + ftb.range_check_builtin) as u64,
            pedersen_builtin_applications: (vb.pedersen_builtin + fb.pedersen_builtin
                + ftb.pedersen_builtin) as u64,
            poseidon_builtin_applications: (vb.poseidon_builtin + fb.poseidon_builtin
                + ftb.poseidon_builtin) as u64,
            ec_op_builtin_applications: (vb.ec_op_builtin + fb.ec_op_builtin + ftb.ec_op_builtin)
                as u64,
            ecdsa_builtin_applications: (vb.ecdsa_builtin + fb.ecdsa_builtin + ftb.ecdsa_builtin)
                as u64,
            bitwise_builtin_applications: (vb.bitwise_builtin + fb.bitwise_builtin
                + ftb.bitwise_builtin) as u64,
            keccak_builtin_applications: (vb.keccak_builtin + fb.keccak_builtin
                + ftb.keccak_builtin) as u64,
            segment_arena_builtin: (vb.segment_arena_builtin + fb.segment_arena_builtin
                + ftb.segment_arena_builtin) as u64,
        },
        data_availability: DataAvailabilityResources { l1_gas: 0, l1_data_gas: 0 },
        l1_gas: (gas_l1(v) + gas_l1(f) + gas_l1(ft)) as u128,
        l1_data_gas: (gas_l1_data(v) + gas_l1_data(f) + gas_l1_data(ft)) as u128,
        l2_gas: (gas_l2(v) + gas_l2(f) + gas_l2(ft)) as u128,
    }
}

pub open spec fn opt_first_error(o: Option<GatewayInvocation>) -> Option<TraceMappingError> {
    match o {
        Some(i) => invocation_first_error(i),
        None => None,
    }
}

pub open spec fn opt_inv_ok(s: Option<GatewayInvocation>, d: Option<FunctionInvocation>) -> bool {
    match s {
        Some(si) => d matches Some(di) && invocation_maps_ok(si, di),
        None => d is None,
    }
}

pub open spec fn seq_first_error(es: Seq<Option<TraceMappingError>>) -> Option<TraceMappingError>
    decreases es.len(),
{
    if es.len() == 0 {
        None
    } else {
        match es[0] {
            Some(e) => Some(e),
            None => seq_first_error(es.drop_first()),
        }
    }
}

proof fn lemma_seq_first_error2(a: Option<TraceMappingError>, b: Option<TraceMappingError>)
    ensures
        seq_first_error(seq![a, b]) == (if a is Some {
            a
        } else {
            b
        }),
{
    let es = seq![a, b];
    assert(es.drop_first() =~= seq![b]);
    assert(seq![b].drop_first() =~= Seq::<Option<TraceMappingError>>::empty());
    assert(seq_first_error(Seq::<Option<TraceMappingError>>::empty()) is None);
    assert(seq_first_error(seq![b]) == (if b is Some {
        b
    } else {
        b
    }));
    assert(seq_first_error(es) == (if a is Some {
        a
    } else {
        b
    }));
}

proof fn lemma_seq_first_error3(
    a: Option<TraceMappingError>,
    b: Option<TraceMappingError>,
    c: Option<TraceMappingError>,
)
    ensures
        seq_first_error(seq![a, b, c]) == (if a is Some {
            a
        } else if b is Some {
            b
        } else {
            c
        }),
{
    let es = seq![a, b, c];
    assert(es.drop_first() =~= seq![b, c]);
    lemma_seq_first_error2(b, c);
    assert(seq_first_error(es) == (if a is Some {
        a
    } else {
        seq_first_error(seq![b, c])
    }));
}

/// The first missing field the trace mapping runs into, in the order the
/// mapping reads the invocations of this transaction kind.
pub open spec fn trace_first_error(variant: TransactionVariant, t: GatewayTrace) -> Option<
    TraceMappingError,
> {
    match variant {
        TransactionVariant::DeclareV0 | TransactionVariant::DeclareV1 | TransactionVariant::DeclareV2
            | TransactionVariant::DeclareV3 => seq_first_error(
            seq![
                opt_first_error(t.fee_transfer_invocation),
                opt_first_error(t.validate_invocation),
            ],
        ),
        TransactionVariant::DeployAccountV1 | TransactionVariant::DeployAccountV3
            | TransactionVariant::DeployV0 | TransactionVariant::DeployV1 => seq_first_error(
            seq![
                opt_first_error(t.function_invocation),
                opt_first_error(t.fee_transfer_invocation),
                opt_first_error(t.validate_invocation),
            ],
        ),
        TransactionVariant::InvokeV0 | TransactionVariant::InvokeV1
            | TransactionVariant::InvokeV3 => if t.revert_error is Some {
            seq_first_error(
                seq![
                    opt_first_error(t.fee_transfer_invocation),
                    opt_first_error(t.validate_invocation),
                ],
            )
        } else {
            seq_first_error(
                seq![
                    opt_first_error(t.function_invocation),
                    opt_first_error(t.fee_transfer_invocation),
                    opt_first_error(t.validate_invocation),
                ],
            )
        },
        TransactionVariant::L1Handler => opt_first_error(t.function_invocation),
    }
}

/// The executor trace a gateway trace maps to, for a transaction of the
/// given kind.
pub open spec fn trace_maps_ok(
    variant: TransactionVariant,
    t: GatewayTrace,
    dst: TransactionTrace,
) -> bool {
    let er = execution_resources_of(t);
    match variant {
        TransactionVariant::DeclareV0 | TransactionVariant::DeclareV1 | TransactionVariant::DeclareV2
            | TransactionVariant::DeclareV3 => dst matches TransactionTrace::Declare(d) && (
        opt_inv_ok(t.fee_transfer_invocation, d.fee_transfer_invocation) && opt_inv_ok(
            t.validate_invocation,
            d.validate_invocation,
        ) && d.execution_resources == er),
        TransactionVariant::DeployAccountV1 | TransactionVariant::DeployAccountV3
            | TransactionVariant::DeployV0 | TransactionVariant::DeployV1 => dst matches
            TransactionTrace::DeployAccount(d) && (opt_inv_ok(
            t.function_invocation,
            d.constructor_invocation,
        ) && opt_inv_ok(t.fee_transfer_invocation, d.fee_transfer_invocation) && opt_inv_ok(
            t.validate_invocation,
            d.validate_invocation,
        ) && d.execution_resources == er),
        TransactionVariant::InvokeV0 | TransactionVariant::InvokeV1
            | TransactionVariant::InvokeV3 => dst matches TransactionTrace::Invoke(d) && ((match t
            .revert_error {
            Some(reason) => d.execute_invocation matches ExecuteInvocation::RevertedReason(rr)
                && rr@ == reason@,
            None => d.execute_invocation matches ExecuteInvocation::FunctionInvocation(o)
                && opt_inv_ok(t.function_invocation, o),
        }) && opt_inv_ok(t.fee_transfer_invocation, d.fee_transfer_invocation) && opt_inv_ok(
            t.validate_invocation,
            d.validate_invocation,
        ) && d.execution_resources == er),
        TransactionVariant::L1Handler => dst matches TransactionTrace::L1Handler(d) && (opt_inv_ok(
            t.function_invocation,
            d.function_invocation,
        ) && d.execution_resources == er),
    }
}

fn sum3_u64_ok(a: u64, b: u64, c: u64) -> (r: bool)
    ensures
        r == (a + b + c <= u64::MAX),
{
    (a as u128) + (b as u128) + (c as u128) <= u64::MAX as u128
}

fn sum3_u128_ok(a: u128, b: u128, c: u128) -> (r: bool)
    ensures
        r == (a + b + c <= u128::MAX),
{
    if a > u128::MAX - b {
        false
    } else if a + b > u128::MAX - c {
        false
    } else {
        true
    }
}

fn opt_resources(o: &Option<GatewayInvocation>) -> (r: GatewayExecutionResources)
    ensures
        r == gw_res(*o),
{
    match o {
        Some(i) => i.execution_resources,
        None => GatewayExecutionResources {
            n_steps: 0,
            n_memory_holes: 0,
            builtin_instance_counter: BuiltinCounters {
                range_check_builtin: 0,
                pedersen_builtin: 0,
                poseidon_builtin: 0,
                ec_op_builtin: 0,
                ecdsa_builtin: 0,
                bitwise_builtin: 0,
                keccak_builtin: 0,
                segment_arena_builtin: 0,
            },
            total_gas_consumed: None,
        },
    }
}

fn l1_gas_of(r: &GatewayExecutionResources) -> (g: u128)
    ensures
        g == gas_l1(*r),
{
    match &r.total_gas_consumed {
        Some(g) => g.l1_gas,
        None => 0,
    }
}

fn l1_data_gas_of(r: &GatewayExecutionResources) -> (g: u128)
    ensures
        g == gas_l1_data(*r),
{
    match &r.total_gas_consumed {
        Some(g) => g.l1_data_gas,
        None => 0,
    }
}

fn l2_gas_of(r: &GatewayExecutionResources) -> (g: u128)
    ensures
        g == gas_l2(*r),
{
    match &r.total_gas_consumed {
        Some(g) => match g.l2_gas {
            Some(x) => x,
            None => 0,
        },
        None => 0,
    }
}

/// Whether a gateway trace's resource sums fit their machine types, so
/// the mapping can be asked for it.
pub fn check_trace_resources(t: &GatewayTrace) -> (r: bool)
    ensures
        r == trace_resources_in_range(*t),
{
    let v = opt_resources(&t.validate_invocation);
    let f = opt_resources(&t.function_invocation);
    let ft = opt_resources(&t.fee_transfer_invocation);
    let vb = v.builtin_instance_counter;
    let fb = f.builtin_instance_counter;
    let ftb = ft.builtin_instance_counter;
    sum3_u64_ok(v.n_steps, f.n_steps, ft.n_steps) && sum3_u64_ok(
        v.n_memory_holes,
        f.n_memory_holes,
        ft.n_memory_holes,
    ) && sum3_u64_ok(vb.range_check_builtin, fb.range_check_builtin, ftb.range_check_builtin)
        && sum3_u64_ok(vb.pedersen_builtin, fb.pedersen_builtin, ftb.pedersen_builtin)
        && sum3_u64_ok(vb.poseidon_builtin, fb.poseidon_builtin, ftb.poseidon_builtin)
        && sum3_u64_ok(vb.ec_op_builtin, fb.ec_op_builtin, ftb.ec_op_builtin) && sum3_u64_ok(
        vb.ecdsa_builtin,
        fb.ecdsa_builtin,
        ftb.ecdsa_builtin,
    ) && sum3_u64_ok(vb.bitwise_builtin, fb.bitwise_builtin, ftb.bitwise_builtin) && sum3_u64_ok(
        vb.keccak_builtin,
        fb.keccak_builtin,
        ftb.keccak_builtin,
    ) && sum3_u64_ok(vb.segment_arena_builtin, fb.segment_arena_builtin, ftb.segment_arena_builtin)
        && sum3_u128_ok(l1_gas_of(&v), l1_gas_of(&f), l1_gas_of(&ft)) && sum3_u128_ok(
        l1_data_gas_of(&v),
        l1_data_gas_of(&f),
        l1_data_gas_of(&ft),
    ) && sum3_u128_ok(l2_gas_of(&v), l2_gas_of(&f), l2_gas_of(&ft))
}

/// Maps an optional invocation; absent stays absent.
fn map_opt_invocation(o: &Option<GatewayInvocation>) -> (r: Result<
    Option<FunctionInvocation>,
    TraceMappingError,
>)
    ensures
        match r {
            Ok(d) => opt_first_error(*o) is None && opt_inv_ok(*o, d),
            Err(e) => opt_first_error(*o) == Some(e),
        },
{
    match o {
        Some(inv) => match map_gateway_function_invocation(inv) {
            Ok(f) => Ok(Some(f)),
            Err(e) => Err(e),
        },
        None => Ok(None),
    }
}

/// Sums the resources of the three top-level invocations.
fn sum_resources(trace: &GatewayTrace) -> (r: ExecutionResources)
    requires
        trace_resources_in_range(*trace),
    ensures
        r == execution_resources_of(*trace),
{
    let zero = GatewayExecutionResources {
        n_steps: 0,
        n_memory_holes: 0,
        builtin_instance_counter: BuiltinCounters {
            range_check_builtin: 0,
            pedersen_builtin: 0,
            poseidon_builtin: 0,
            ec_op_builtin: 0,
            ecdsa_builtin: 0,
            bitwise_builtin: 0,
            keccak_builtin: 0,
            segment_arena_builtin: 0,
        },
        total_gas_consumed: None,
    };
    let v = match &trace.validate_invocation {
        Some(i) => i.execution_resources,
        None => zero,
    };
    let f = match &trace.function_invocation {
        Some(i) => i.execution_resources,
        None => zero,
    };
    let ft = match &trace.fee_transfer_invocation {
        Some(i) => i.execution_resources,
        None => zero,
    };
    let v_gas = match v.total_gas_consumed {
        Some(g) => g,
        None => GasVector { l1_gas: 0, l1_data_gas: 0, l2_gas: None },
    };
    let f_gas = match f.total_gas_consumed {
        Some(g) => g,
        None => GasVector { l1_gas: 0, l1_data_gas: 0, l2_gas: None },
    };
    let ft_gas = match ft.total_gas_consumed {
        Some(g) => g,
        None => GasVector { l1_gas: 0, l1_data_gas: 0, l2_gas: None },
    };
    let v_l2 = match v_gas.l2_gas {
        Some(x) => x,
        None => 0,
    };
    let f_l2 = match f_gas.l2_gas {
        Some(x) => x,
        None => 0,
    };
    let ft_l2 = match ft_gas.l2_gas {
        Some(x) => x,
        None => 0,
    };
    ExecutionResources {
        computation_resources: ComputationResources {
            steps: v.n_steps + f.n_steps + ft.n_steps,
            memory_holes: v.n_memory_holes + f.n_memory_holes + ft.n_memory_holes,
            range_check_builtin_applications: v.builtin_instance_counter.range_check_builtin
                + f.builtin_instance_counter.range_check_builtin
                + ft.builtin_instance_counter.range_check_builtin,
            pedersen_builtin_applications: v.builtin_instance_counter.pedersen_builtin
                + f.builtin_instance_counter.pedersen_builtin
                + ft.builtin_instance_counter.pedersen_builtin,
            poseidon_builtin_applications: v.builtin_instance_counter.poseidon_builtin
                + f.builtin_instance_counter.poseidon_builtin
                + ft.builtin_instance_counter.poseidon_builtin,
            ec_op_builtin_applications: v.builtin_instance_counter.ec_op_builtin
                + f.builtin_instance_counter.ec_op_builtin
                + ft.builtin_instance_counter.ec_op_builtin,
            ecdsa_builtin_applications: v.builtin_instance_counter.ecdsa_builtin
                + f.builtin_instance_counter.ecdsa_builtin
                + ft.builtin_instance_counter.ecdsa_builtin,
            bitwise_builtin_applications: v.builtin_instance_counter.bitwise_builtin
                + f.builtin_instance_counter.bitwise_builtin
                + ft.builtin_instance_counter.bitwise_builtin,
            keccak_builtin_applications: v.builtin_instance_counter.keccak_builtin
                + f.builtin_instance_counter.keccak_builtin
                + ft.builtin_instance_counter.keccak_builtin,
            segment_arena_builtin: v.builtin_instance_counter.segment_arena_builtin
                + f.builtin_instance_counter.segment_arena_builtin
                + ft.builtin_instance_counter.segment_arena_builtin,
        },
        data_availability: DataAvailabilityResources { l1_gas: 0, l1_data_gas: 0 },
        l1_gas: v_gas.l1_gas + f_gas.l1_gas + ft_gas.l1_gas,
        l1_data_gas: v_gas.l1_data_gas + f_gas.l1_data_gas + ft_gas.l1_data_gas,
        l2_gas: v_l2 + f_l2 + ft_l2,
    }
}

/// Maps a gateway trace to the executor's form for the given transaction:
/// the invocations this transaction kind carries are mapped in order, the
/// resources are summed, and a reverted invoke keeps its revert reason.
pub fn map_gateway_trace(transaction: Transaction, trace: GatewayTrace) -> (r: Result<
    TransactionTrace,
    TraceMappingError,
>)
    requires
        trace_resources_in_range(trace),
    ensures
        match r {
            Ok(tt) => trace_first_error(transaction.variant, trace) is None && trace_maps_ok(
                transaction.variant,
                trace,
                tt,
            ),
            Err(e) => trace_first_error(transaction.variant, trace) == Some(e),
        },
{
    let execution_resources = sum_resources(&trace);
    match transaction.variant {
        TransactionVariant::DeclareV0 | TransactionVariant::DeclareV1 | TransactionVariant::DeclareV2
            | TransactionVariant::DeclareV3 => {
            proof {
                lemma_seq_first_error2(
                    opt_first_error(trace.fee_transfer_invocation),
                    opt_first_error(trace.validate_invocation),
                );
            }
            let fee_transfer_invocation = match map_opt_invocation(
                &trace.fee_transfer_invocation,
            ) {
                Ok(x) => x,
                Err(e) => {
                    return Err(e);
                },
            };
            let validate_invocation = match map_opt_invocation(&trace.validate_invocation) {
                Ok(x) => x,
                Err(e) => {
                    return Err(e);
                },
            };
            Ok(
                TransactionTrace::Declare(
                    DeclareTransactionTrace {
                        fee_transfer_invocation,
                        validate_invocation,
                        execution_resources,
                    },
                ),
            )
        },
        TransactionVariant::DeployAccountV1 | TransactionVariant::DeployAccountV3
            | TransactionVariant::DeployV0 | TransactionVariant::DeployV1 => {
            proof {
                lemma_seq_first_error3(
                    opt_first_error(trace.function_invocation),
                    opt_first_error(trace.fee_transfer_invocation),
                    opt_first_error(trace.validate_invocation),
                );
            }
            let constructor_invocation = match map_opt_invocation(&trace.function_invocation) {
                Ok(x) => x,
                Err(e) => {
                    return Err(e);
                },
            };
            let fee_transfer_invocation = match map_opt_invocation(
                &trace.fee_transfer_invocation,
            ) {
                Ok(x) => x,
                Err(e) => {
                    return Err(e);
                },
            };
            let validate_invocation = match map_opt_invocation(&trace.validate_invocation) {
                Ok(x) => x,
                Err(e) => {
                    return Err(e);
                },
            };
            Ok(
                TransactionTrace::DeployAccount(
                    DeployAccountTransactionTrace {
                        constructor_invocation,
                        fee_transfer_invocation,
                        validate_invocation,
                        execution_resources,
                    },
                ),
            )
        },
        TransactionVariant::InvokeV0 | TransactionVariant::InvokeV1
            | TransactionVariant::InvokeV3 => {
            proof {
                lemma_seq_first_error3(
                    opt_first_error(trace.function_invocation),
                    opt_first_error(trace.fee_transfer_invocation),
                    opt_first_error(trace.validate_invocation),
                );
                lemma_seq_first_error2(
                    opt_first_error(trace.fee_transfer_invocation),
                    opt_first_error(trace.validate_invocation),
                );
            }
            let execute_invocation = match &trace.revert_error {
                Some(revert_reason) => ExecuteInvocation::RevertedReason(
                    crate::data::copy_vec(revert_reason),
                ),
                None => {
                    let f = match map_opt_invocation(&trace.function_invocation) {
                        Ok(x) => x,
                        Err(e) => {
                            return Err(e);
                        },
                    };
                    ExecuteInvocation::FunctionInvocation(f)
                },
            };
            let fee_transfer_invocation = match map_opt_invocation(
                &trace.fee_transfer_invocation,
            ) {
                Ok(x) => x,
                Err(e) => {
                    return Err(e);
                },
            };
            let validate_invocation = match map_opt_invocation(&trace.validate_invocation) {
                Ok(x) => x,
                Err(e) => {
                    return Err(e);
                },
            };
            Ok(
                TransactionTrace::Invoke(
                    InvokeTransactionTrace {
                        execute_invocation,
                        fee_transfer_invocation,
                        validate_invocation,
                        execution_resources,
                    },
                ),
            )
        },
        TransactionVariant::L1Handler => {
            let function_invocation = match map_opt_invocation(&trace.function_invocation) {
                Ok(x) => x,
                Err(e) => {
                    return Err(e);
                },
            };
            Ok(
                TransactionTrace::L1Handler(
                    L1HandlerTransactionTrace { function_invocation, execution_resources },
                ),
            )
        },
    }
}

} // verus!
