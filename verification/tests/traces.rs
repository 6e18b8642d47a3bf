use blocksync::data::Transaction;
use blocksync::data::TransactionHash;
use blocksync::data::TransactionVariant;
use blocksync::felt::Felt;
use blocksync::rpc::TraceBlockTransactionsError;
use blocksync::rpc::TraceSource;
use blocksync::rpc::TransactionExecutionError;
use blocksync::rpc::assemble_gateway_traces;
use blocksync::rpc::classify_execution_error;
use blocksync::rpc::plan_trace_source;
use blocksync::trace::BuiltinCounters;
use blocksync::trace::CallType;
use blocksync::trace::EntryPointType;
use blocksync::trace::GasVector;
use blocksync::trace::GatewayExecutionResources;
use blocksync::trace::GatewayInvocation;
use blocksync::trace::GatewayTrace;
use blocksync::trace::TraceMappingError;
use blocksync::trace::TransactionTrace;
use blocksync::trace::map_gateway_trace;

fn resources(steps: u64, l1_gas: u128) -> GatewayExecutionResources {
    GatewayExecutionResources {
        n_steps: steps,
        n_memory_holes: 1,
        builtin_instance_counter: BuiltinCounters {
            range_check_builtin: 2,
            pedersen_builtin: 3,
            poseidon_builtin: 0,
            ec_op_builtin: 0,
            ecdsa_builtin: 0,
            bitwise_builtin: 0,
            keccak_builtin: 0,
            segment_arena_builtin: 0,
        },
        total_gas_consumed: Some(GasVector { l1_gas, l1_data_gas: 7, l2_gas: None }),
    }
}

fn invocation(steps: u64) -> GatewayInvocation {
    GatewayInvocation {
        calldata: vec![Felt::from_u64(1)],
        contract_address: Felt::from_u64(0xaa),
        selector: Some(Felt::from_u64(0xbb)),
        call_type: Some(CallType::Call),
        caller_address: Felt::from_u64(0xcc),
        internal_calls: vec![],
        class_hash: Some(Felt::from_u64(0xdd)),
        entry_point_type: Some(EntryPointType::External),
        events: vec![],
        messages: vec![],
        result: vec![Felt::from_u64(9)],
        execution_resources: resources(steps, 20),
    }
}

fn invoke_tx() -> Transaction {
    Transaction {
        hash: TransactionHash(Felt::from_u64(0x77)),
        variant: TransactionVariant::InvokeV1,
    }
}

#[test]
fn invoke_trace_sums_resources() {
    let trace = GatewayTrace {
        validate_invocation: Some(invocation(10)),
        function_invocation: Some(invocation(20)),
        fee_transfer_invocation: Some(invocation(30)),
        revert_error: None,
    };
    let mapped = map_gateway_trace(invoke_tx(), trace).unwrap();
    match mapped {
        TransactionTrace::Invoke(t) => {
            assert_eq!(t.execution_resources.computation_resources.steps, 60);
            assert_eq!(t.execution_resources.computation_resources.memory_holes, 3);
            assert_eq!(
                t.execution_resources
                    .computation_resources
                    .range_check_builtin_applications,
                6
            );
            assert_eq!(t.execution_resources.l1_gas, 60);
            assert_eq!(t.execution_resources.l1_data_gas, 21);
            assert_eq!(t.execution_resources.l2_gas, 0);
            assert!(t.validate_invocation.is_some());
            assert!(t.fee_transfer_invocation.is_some());
            let v = t.validate_invocation.unwrap();
            assert_eq!(v.selector, Felt::from_u64(0xbb));
            assert_eq!(v.computation_resources.steps, 10);
            assert_eq!(v.execution_resources.l1_gas, 20);
            assert_eq!(v.execution_resources.l2_gas, 0);
        },
        other => panic!("expected an invoke trace, got {:?}", other),
    }
}

#[test]
fn reverted_invoke_keeps_reason() {
    let trace = GatewayTrace {
        validate_invocation: Some(invocation(10)),
        function_invocation: None,
        fee_transfer_invocation: None,
        revert_error: Some(b"out of gas".to_vec()),
    };
    let mapped = map_gateway_trace(invoke_tx(), trace).unwrap();
    match mapped {
        TransactionTrace::Invoke(t) => match t.execute_invocation {
            blocksync::trace::ExecuteInvocation::RevertedReason(r) => {
                assert_eq!(r, b"out of gas".to_vec());
            },
            other => panic!("expected a reverted execute phase, got {:?}", other),
        },
        other => panic!("expected an invoke trace, got {:?}", other),
    }
}

#[test]
fn missing_selector_fails_mapping() {
    let mut bad = invocation(10);
    bad.selector = None;
    let trace = GatewayTrace {
        validate_invocation: None,
        function_invocation: Some(bad),
        fee_transfer_invocation: None,
        revert_error: None,
    };
    assert_eq!(
        map_gateway_trace(invoke_tx(), trace).unwrap_err(),
        TraceMappingError::MissingSelector
    );
}

#[test]
fn missing_call_type_fails_mapping() {
    let mut bad = invocation(10);
    bad.call_type = None;
    let trace = GatewayTrace {
        validate_invocation: Some(bad),
        function_invocation: None,
        fee_transfer_invocation: None,
        revert_error: None,
    };
    assert_eq!(
        map_gateway_trace(invoke_tx(), trace).unwrap_err(),
        TraceMappingError::MissingCallType
    );
}

#[test]
fn missing_entry_point_type_fails_mapping() {
    let mut bad = invocation(10);
    bad.entry_point_type = None;
    let trace = GatewayTrace {
        validate_invocation: None,
        function_invocation: None,
        fee_transfer_invocation: Some(bad),
        revert_error: None,
    };
    assert_eq!(
        map_gateway_trace(invoke_tx(), trace).unwrap_err(),
        TraceMappingError::MissingEntryPointType
    );
}

#[test]
fn missing_block_stays_not_found() {
    let e = TraceBlockTransactionsError::from(blocksync::rpc::ExecutionStateError::BlockNotFound);
    assert!(matches!(e, TraceBlockTransactionsError::BlockNotFound));
    let e = blocksync::rpc::ApplicationError::from(TraceBlockTransactionsError::BlockNotFound);
    assert!(matches!(e, blocksync::rpc::ApplicationError::BlockNotFound));
}

#[test]
fn declare_ignores_function_invocation() {
    // A declare transaction's trace maps only fee-transfer and validate.
    let trace = GatewayTrace {
        validate_invocation: Some(invocation(10)),
        function_invocation: None,
        fee_transfer_invocation: Some(invocation(30)),
        revert_error: None,
    };
    let tx = Transaction {
        hash: TransactionHash(Felt::from_u64(0x78)),
        variant: TransactionVariant::DeclareV2,
    };
    match map_gateway_trace(tx, trace).unwrap() {
        TransactionTrace::Declare(t) => {
            assert!(t.validate_invocation.is_some());
            assert!(t.fee_transfer_invocation.is_some());
            assert_eq!(t.execution_resources.computation_resources.steps, 40);
        },
        other => panic!("expected a declare trace, got {:?}", other),
    }
}

#[test]
fn nested_calls_are_mapped() {
    let mut outer = invocation(10);
    outer.internal_calls = vec![invocation(5)];
    let trace = GatewayTrace {
        validate_invocation: None,
        function_invocation: Some(outer),
        fee_transfer_invocation: None,
        revert_error: None,
    };
    let tx = Transaction {
        hash: TransactionHash(Felt::from_u64(0x79)),
        variant: TransactionVariant::L1Handler,
    };
    match map_gateway_trace(tx, trace).unwrap() {
        TransactionTrace::L1Handler(t) => {
            let f = t.function_invocation.unwrap();
            assert_eq!(f.internal_calls.len(), 1);
            assert_eq!(f.internal_calls[0].computation_resources.steps, 5);
        },
        other => panic!("expected an L1 handler trace, got {:?}", other),
    }
}

#[test]
fn overflowing_resource_sums_are_caught() {
    let mut big = invocation(u64::MAX);
    big.execution_resources.n_steps = u64::MAX;
    let trace = GatewayTrace {
        validate_invocation: Some(big),
        function_invocation: Some(invocation(1)),
        fee_transfer_invocation: None,
        revert_error: None,
    };
    assert!(!blocksync::trace::check_trace_resources(&trace));
    let ok = GatewayTrace {
        validate_invocation: Some(invocation(1)),
        function_invocation: None,
        fee_transfer_invocation: None,
        revert_error: None,
    };
    assert!(blocksync::trace::check_trace_resources(&ok));
}

#[test]
fn trace_source_decision() {
    assert_eq!(plan_trace_source(false, true).unwrap(), TraceSource::Local);
    assert_eq!(plan_trace_source(true, true).unwrap(), TraceSource::Local);
    assert_eq!(plan_trace_source(false, false).unwrap(), TraceSource::Gateway);
    assert!(matches!(
        plan_trace_source(true, false).unwrap_err(),
        TraceBlockTransactionsError::Internal(_)
    ));
}

#[test]
fn execution_errors_fall_back() {
    assert!(classify_execution_error(TransactionExecutionError::ExecutionError {
        transaction_index: 4,
        error: "reverted".to_owned(),
    })
    .is_none());
    assert!(matches!(
        classify_execution_error(TransactionExecutionError::Internal("io".to_owned())),
        Some(TraceBlockTransactionsError::Internal(_))
    ));
    let mapped = TraceBlockTransactionsError::from(TransactionExecutionError::Custom(
        "bad class".to_owned(),
    ));
    assert!(matches!(mapped, TraceBlockTransactionsError::Custom(_)));
}

#[test]
fn gateway_traces_zip_with_transactions() {
    let txs = vec![invoke_tx(), invoke_tx()];
    let traces = vec![
        GatewayTrace {
            validate_invocation: None,
            function_invocation: Some(invocation(1)),
            fee_transfer_invocation: None,
            revert_error: None,
        },
        GatewayTrace {
            validate_invocation: None,
            function_invocation: Some(invocation(2)),
            fee_transfer_invocation: None,
            revert_error: None,
        },
    ];
    let out = assemble_gateway_traces(&txs, traces).unwrap();
    assert_eq!(out.len(), 2);
    assert_eq!(out[0].0, TransactionHash(Felt::from_u64(0x77)));
    assert!(matches!(out[1].1, TransactionTrace::Invoke(_)));
}
