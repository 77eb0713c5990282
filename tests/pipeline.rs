use solana_trades::block::{
    collect_transaction, prepare, process_block, BlockHeader, FatalError, Outcome, Transaction,
    TxError, TxStatus,
};
use solana_trades::ledger::{read_u64_le, BalanceTracker, LedgerError, TokenBalance, TOKEN_PROGRAM_ID};
use solana_trades::events::{
    event_columns, kind_of, AmmSwapEvent, AmmWithdrawPnlEvent, ClmmCreatePoolEvent, ProtocolEvent,
    PumpfunWithdrawEvent,
};
use solana_trades::rows::{
    route, table_name, u128_from_le, Column, EventKind, Protocol, Row, Value,
    PUMPFUN_PROGRAM_ID, RAYDIUM_AMM_PROGRAM_ID, RAYDIUM_CLMM_PROGRAM_ID,
};
use solana_trades::tree::{build_tree, InnerInstruction, InnerTrace, Origin, RawInstruction, StructuralError};

fn ins(program: &str) -> RawInstruction {
    RawInstruction { program_id: program.to_string(), accounts: vec![], data: vec![] }
}

fn inner(program: &str, height: Option<u32>) -> InnerInstruction {
    InnerInstruction { instruction: ins(program), stack_height: height }
}

fn transfer(from: &str, to: &str, amount: u64) -> RawInstruction {
    let mut data = vec![3u8];
    data.extend_from_slice(&amount.to_le_bytes());
    RawInstruction {
        program_id: TOKEN_PROGRAM_ID.to_string(),
        accounts: vec![from.to_string(), to.to_string(), "auth".to_string()],
        data,
    }
}

fn header() -> BlockHeader {
    BlockHeader {
        slot: 100,
        parent_slot: 99,
        block_height: Some(90),
        blockhash: "HashOfBlock".to_string(),
        previous_blockhash: "prev".to_string(),
        block_time: Some(1700000000),
    }
}

fn tx(instructions: Vec<RawInstruction>, inner: Vec<InnerTrace>) -> Transaction {
    Transaction {
        signature: "5sigLong".to_string(),
        signers: vec!["alice".to_string()],
        failed: false,
        instructions,
        inner,
        pre_balances: vec![],
    }
}

fn amm_swap() -> AmmSwapEvent {
    AmmSwapEvent {
        amm: "pool".to_string(),
        user: "alice".to_string(),
        amount_in: 5,
        amount_out: 7,
        mint_in: "m1".to_string(),
        mint_out: "m2".to_string(),
        direction: "coin".to_string(),
        pool_pc_amount: Some(1000),
        pool_coin_amount: None,
        user_pre_balance_in: Some(50),
        user_pre_balance_out: None,
    }
}

fn swap_event() -> Outcome {
    Ok(Some(ProtocolEvent::AmmSwap(amm_swap())))
}

fn names(cols: &[Column]) -> Vec<&str> {
    cols.iter().map(|c| c.name.as_str()).collect()
}

fn get<'a>(row: &'a Row, name: &str) -> Option<&'a Value> {
    row.key.iter().chain(row.columns.iter()).find(|c| c.name == name).map(|c| &c.value)
}

fn text(s: &str) -> Value {
    Value::Text(s.to_string())
}

#[test]
fn indices_are_contiguous_in_preorder() {
    let traces = vec![
        InnerTrace { index: 1, instructions: vec![inner("a", Some(2)), inner("b", Some(3))] },
        InnerTrace { index: 0, instructions: vec![inner("c", Some(2))] },
    ];
    let tree = build_tree(2, &traces).unwrap();
    let idx: Vec<usize> = tree.nodes.iter().map(|n| n.index).collect();
    assert_eq!(idx, vec![0, 1, 2, 3, 4]);
    let origins: Vec<Origin> = tree.nodes.iter().map(|n| n.origin).collect();
    assert_eq!(
        origins,
        vec![Origin::Top(0), Origin::Inner(1, 0), Origin::Top(1), Origin::Inner(0, 0), Origin::Inner(0, 1)]
    );
    assert!(!tree.shallow);
}

#[test]
fn parent_follows_stack_height() {
    let traces = vec![InnerTrace {
        index: 0,
        instructions: vec![
            inner("a", Some(2)),
            inner("b", Some(3)),
            inner("c", Some(3)),
            inner("d", Some(2)),
        ],
    }];
    let tree = build_tree(1, &traces).unwrap();
    let parents: Vec<Option<usize>> = tree.nodes.iter().map(|n| n.parent).collect();
    assert_eq!(parents, vec![None, Some(0), Some(1), Some(1), Some(0)]);
    assert!(tree.nodes.iter().all(|n| n.top == 0));
    // walking parents ends at the cached top
    for n in tree.nodes.iter() {
        let mut cur = n.index;
        while let Some(p) = tree.nodes[cur].parent {
            cur = p;
        }
        assert_eq!(cur, n.top);
    }
}

#[test]
fn missing_depth_falls_back_to_top_level_parent() {
    let traces = vec![InnerTrace { index: 0, instructions: vec![inner("a", None), inner("b", None)] }];
    let tree = build_tree(1, &traces).unwrap();
    assert!(tree.shallow);
    assert_eq!(tree.nodes[1].parent, Some(0));
    assert_eq!(tree.nodes[2].parent, Some(0));
    assert_eq!(tree.nodes[2].depth, 2);
}

#[test]
fn trace_out_of_range_is_structural_error() {
    let traces = vec![InnerTrace { index: 3, instructions: vec![] }];
    assert!(matches!(build_tree(2, &traces), Err(StructuralError::TraceOutOfRange { trace: 0, index: 3 })));
}

#[test]
fn depth_jump_is_structural_error() {
    let traces = vec![InnerTrace { index: 0, instructions: vec![inner("a", Some(3))] }];
    assert!(matches!(build_tree(1, &traces), Err(StructuralError::BadNesting { trace: 0, position: 0 })));
    let traces = vec![InnerTrace { index: 0, instructions: vec![inner("a", Some(1))] }];
    assert!(matches!(build_tree(1, &traces), Err(StructuralError::BadNesting { trace: 0, position: 0 })));
}

#[test]
fn empty_transaction_has_empty_tree() {
    let tree = build_tree(0, &vec![]).unwrap();
    assert_eq!(tree.len(), 0);
    assert!(tree.get(0).is_none());
}

fn balances() -> Vec<TokenBalance> {
    vec![
        TokenBalance { account: "src".to_string(), mint: "m".to_string(), amount: 100 },
        TokenBalance { account: "dst".to_string(), mint: "m".to_string(), amount: 5 },
    ]
}

#[test]
fn transfer_moves_balance() {
    let mut t = BalanceTracker::new(&balances());
    assert_eq!(t.update_balance(&transfer("src", "dst", 30)), Ok(()));
    assert_eq!(t.balance_before(&"src".to_string(), &"m".to_string()), Some(70));
    assert_eq!(t.balance_before(&"dst".to_string(), &"m".to_string()), Some(35));
    assert_eq!(t.balance_before(&"dst".to_string(), &"other".to_string()), None);
}

#[test]
fn untracked_instruction_is_ledger_no_op() {
    let mut t = BalanceTracker::new(&balances());
    assert_eq!(t.update_balance(&ins("x")), Ok(()));
    assert_eq!(t.amounts, vec![100, 5]);
}

#[test]
fn overdraft_and_overflow_are_reported() {
    let mut t = BalanceTracker::new(&balances());
    assert_eq!(t.update_balance(&transfer("dst", "src", 6)), Err(LedgerError::Underflow { account_slot: 1 }));
    assert_eq!(t.amounts, vec![100, 5]);
    let big = vec![
        TokenBalance { account: "src".to_string(), mint: "m".to_string(), amount: 10 },
        TokenBalance { account: "dst".to_string(), mint: "m".to_string(), amount: u64::MAX - 5 },
    ];
    let mut t = BalanceTracker::new(&big);
    assert_eq!(t.update_balance(&transfer("src", "dst", 6)), Err(LedgerError::Overflow { account_slot: 1 }));
    assert_eq!(t.amounts, vec![10, u64::MAX - 5]);
}

#[test]
fn balance_before_excludes_current_and_later() {
    let mut t = tx(vec![transfer("src", "dst", 10), transfer("src", "dst", 20)], vec![]);
    t.pre_balances = balances();
    let p = prepare(&t).unwrap();
    let src = "src".to_string();
    let m = "m".to_string();
    assert_eq!(p.balance_before(0, &src, &m), Some(100));
    assert_eq!(p.balance_before(1, &src, &m), Some(90));
    assert_eq!(p.balance_before(2, &src, &m), None);
}

#[test]
fn prepare_reports_ledger_inconsistency() {
    let mut t = tx(vec![transfer("dst", "src", 50)], vec![]);
    t.pre_balances = balances();
    assert!(matches!(prepare(&t), Err(TxError::Ledger(LedgerError::Underflow { .. }))));
}

#[test]
fn scenario_single_top_level_swap() {
    let t = tx(vec![ins(RAYDIUM_AMM_PROGRAM_ID)], vec![]);
    let rows = process_block(&header(), &vec![t], &vec![vec![swap_event()]]).unwrap();
    assert_eq!(rows.len(), 3);
    let ev = &rows[0];
    assert_eq!(ev.table, "raydium_amm_swap_events");
    assert_eq!(get(ev, "instruction_index"), Some(&Value::Unsigned(0)));
    assert_eq!(get(ev, "parent_instruction_index"), Some(&Value::Signed(-1)));
    assert_eq!(get(ev, "parent_instruction_program_id"), Some(&text("")));
    assert_eq!(get(ev, "top_instruction_program_id"), Some(&text("")));
    assert_eq!(get(ev, "top_instruction_index"), Some(&Value::Signed(-1)));
    assert_eq!(get(ev, "amount_in"), Some(&Value::Unsigned(5)));
    assert_eq!(get(ev, "partial_signature"), Some(&text("5sig")));
    assert_eq!(get(ev, "partial_blockhash"), Some(&text("Hash")));
    assert_eq!(rows[1].table, "transactions");
    assert_eq!(get(&rows[1], "number_of_signers"), Some(&Value::Unsigned(1)));
    assert_eq!(get(&rows[1], "signer0"), Some(&text("alice")));
    assert_eq!(get(&rows[1], "signer7"), Some(&text("")));
    assert_eq!(rows[2].table, "blocks");
    assert_eq!(get(&rows[2], "block_height"), Some(&Value::Unsigned(90)));
}

#[test]
fn scenario_inner_swap_under_untracked_program() {
    let traces = vec![InnerTrace {
        index: 0,
        instructions: vec![InnerInstruction { instruction: ins(RAYDIUM_AMM_PROGRAM_ID), stack_height: Some(2) }],
    }];
    let t = tx(vec![ins("Router111")], traces);
    // the outer instruction's decoder slot is empty; the inner one reports a swap
    let rows = process_block(&header(), &vec![t], &vec![vec![swap_event(), swap_event()]]).unwrap();
    assert_eq!(rows.len(), 3);
    let ev = &rows[0];
    assert_eq!(get(ev, "instruction_index"), Some(&Value::Unsigned(1)));
    assert_eq!(get(ev, "parent_instruction_program_id"), Some(&text("Router111")));
    assert_eq!(get(ev, "parent_instruction_index"), Some(&Value::Signed(0)));
    assert_eq!(get(ev, "top_instruction_program_id"), Some(&text("Router111")));
    assert_eq!(get(ev, "top_instruction_index"), Some(&Value::Signed(0)));
}

#[test]
fn failed_transaction_yields_only_block_row() {
    let mut t = tx(vec![ins(RAYDIUM_AMM_PROGRAM_ID)], vec![]);
    t.failed = true;
    let rows = process_block(&header(), &vec![t], &vec![vec![swap_event()]]).unwrap();
    assert_eq!(rows.len(), 1);
    assert_eq!(rows[0].table, "blocks");
}

#[test]
fn collect_reports_failed_and_rejected() {
    let mut batch: Vec<Row> = Vec::new();
    let mut t = tx(vec![ins("x")], vec![]);
    t.failed = true;
    assert_eq!(collect_transaction(&mut batch, 1, 0, &"hash".to_string(), &t, &vec![]), TxStatus::Failed);
    let t = tx(vec![ins("x")], vec![InnerTrace { index: 4, instructions: vec![] }]);
    assert_eq!(
        collect_transaction(&mut batch, 1, 0, &"hash".to_string(), &t, &vec![]),
        TxStatus::Rejected(TxError::Nesting(StructuralError::TraceOutOfRange { trace: 0, index: 4 }))
    );
    assert!(batch.is_empty());
}

#[test]
fn structural_error_skips_only_that_transaction() {
    let bad = tx(vec![ins(RAYDIUM_AMM_PROGRAM_ID)], vec![InnerTrace { index: 9, instructions: vec![] }]);
    let good = tx(vec![ins(RAYDIUM_AMM_PROGRAM_ID)], vec![]);
    let rows = process_block(&header(), &vec![bad, good], &vec![vec![swap_event()], vec![swap_event()]]).unwrap();
    assert_eq!(rows.len(), 3);
    assert_eq!(get(&rows[0], "transaction_index"), Some(&Value::Unsigned(1)));
}

#[test]
fn decoder_error_and_mismatched_kind_emit_nothing() {
    let t = tx(vec![ins(RAYDIUM_AMM_PROGRAM_ID), ins(PUMPFUN_PROGRAM_ID)], vec![]);
    let outs: Vec<Outcome> = vec![Err("bad payload".to_string()), swap_event()];
    let rows = process_block(&header(), &vec![t], &vec![outs]).unwrap();
    assert_eq!(rows.len(), 2);
    assert_eq!(rows[0].table, "transactions");
}

#[test]
fn missing_block_fields_are_fatal() {
    let mut h = header();
    h.block_time = None;
    assert_eq!(process_block(&h, &vec![], &vec![]), Err(FatalError::MissingBlockTime));
    h.block_height = None;
    assert_eq!(process_block(&h, &vec![], &vec![]), Err(FatalError::MissingBlockHeight));
}

#[test]
fn empty_block_yields_block_row() {
    let rows = process_block(&header(), &vec![], &vec![]).unwrap();
    assert_eq!(rows.len(), 1);
    assert_eq!(get(&rows[0], "slot"), Some(&Value::Unsigned(100)));
    assert_eq!(get(&rows[0], "block_time"), Some(&Value::Signed(1700000000)));
}

#[test]
fn processing_twice_gives_identical_batches() {
    let traces = vec![InnerTrace {
        index: 0,
        instructions: vec![InnerInstruction { instruction: ins(RAYDIUM_AMM_PROGRAM_ID), stack_height: Some(2) }],
    }];
    let make = || vec![tx(vec![ins("Router111")], vec![InnerTrace { index: 0, instructions: vec![] }]), tx(vec![ins("Router111")], traces.iter().map(|t| InnerTrace { index: t.index, instructions: vec![InnerInstruction { instruction: ins(RAYDIUM_AMM_PROGRAM_ID), stack_height: Some(2) }] }).collect())];
    let a = process_block(&header(), &make(), &vec![vec![], vec![Ok(None), swap_event()]]).unwrap();
    let b = process_block(&header(), &make(), &vec![vec![], vec![Ok(None), swap_event()]]).unwrap();
    assert_eq!(a, b);
    assert_eq!(a.len(), 4);
}

#[test]
fn routing_and_tables() {
    assert_eq!(route(&RAYDIUM_AMM_PROGRAM_ID.to_string()), Some(Protocol::RaydiumAmm));
    assert_eq!(route(&RAYDIUM_CLMM_PROGRAM_ID.to_string()), Some(Protocol::RaydiumClmm));
    assert_eq!(route(&PUMPFUN_PROGRAM_ID.to_string()), Some(Protocol::Pumpfun));
    assert_eq!(route(&"11111111111111111111111111111111".to_string()), None);
    assert_eq!(table_name(EventKind::PumpfunSetParams), "pumpfun_set_params_events");
    assert_eq!(table_name(EventKind::ClmmCreatePool), "raydium_clmm_create_pool_events");
}

#[test]
fn little_endian_readers() {
    let mut b = vec![0u8; 16];
    b[0] = 1;
    b[15] = 2;
    assert_eq!(u128_from_le(&b), Some(1 + (2u128 << 120)));
    assert_eq!(u128_from_le(&vec![0u8; 15]), None);
    let v = vec![9u8, 0x10, 0x32, 0x54, 0x76, 0x98, 0xba, 0xdc, 0xfe];
    assert_eq!(read_u64_le(&v, 1), 0xfedcba9876543210);
}

#[test]
fn swap_columns_follow_event_fields() {
    let cols = event_columns(&ProtocolEvent::AmmSwap(amm_swap())).unwrap();
    assert_eq!(
        names(&cols),
        vec![
            "amm", "user", "amount_in", "amount_out", "mint_in", "mint_out", "direction", "pool_pc_amount",
            "pool_coin_amount", "user_pre_balance_in", "user_pre_balance_out"
        ]
    );
    assert_eq!(cols[3].value, Value::Unsigned(7));
    assert_eq!(cols[7].value, Value::Unsigned(1000));
    assert_eq!(cols[8].value, Value::Unsigned(0));
    assert_eq!(cols[0].value, text("pool"));
}

#[test]
fn withdraw_pnl_defaults_missing_fields() {
    let e = ProtocolEvent::AmmWithdrawPnl(AmmWithdrawPnlEvent {
        amm: "pool".to_string(),
        user: "u".to_string(),
        pc_amount: None,
        coin_amount: Some(3),
        pc_mint: None,
        coin_mint: Some("c".to_string()),
    });
    assert_eq!(kind_of(&e), EventKind::AmmWithdrawPnl);
    let cols = event_columns(&e).unwrap();
    assert_eq!(cols[2].value, Value::Unsigned(0));
    assert_eq!(cols[3].value, Value::Unsigned(3));
    assert_eq!(cols[4].value, text(""));
    assert_eq!(cols[5].value, text("c"));
}

fn create_pool(price: Vec<u8>) -> ProtocolEvent {
    ProtocolEvent::ClmmCreatePool(ClmmCreatePoolEvent {
        amm: "a".to_string(),
        creator: "c".to_string(),
        token0_mint: "t0".to_string(),
        token1_mint: "t1".to_string(),
        token0_vault: "v0".to_string(),
        token1_vault: "v1".to_string(),
        token0_program: "p0".to_string(),
        token1_program: "p1".to_string(),
        sqrt_price: price,
        open_time: 42,
    })
}

#[test]
fn clmm_price_is_read_little_endian() {
    let mut price = vec![0u8; 16];
    price[1] = 1;
    let cols = event_columns(&create_pool(price)).unwrap();
    assert_eq!(cols[8].name, "sqrt_price");
    assert_eq!(cols[8].value, Value::Unsigned(256));
    assert_eq!(cols[9].value, Value::Unsigned(42));
    assert!(event_columns(&create_pool(vec![1, 2, 3])).is_none());
}

#[test]
fn malformed_price_skips_only_that_instruction() {
    let t = tx(vec![ins(RAYDIUM_CLMM_PROGRAM_ID), ins(RAYDIUM_CLMM_PROGRAM_ID)], vec![]);
    let mut good = vec![0u8; 16];
    good[0] = 9;
    let outs: Vec<Outcome> = vec![Ok(Some(create_pool(vec![1]))), Ok(Some(create_pool(good)))];
    let rows = process_block(&header(), &vec![t], &vec![outs]).unwrap();
    assert_eq!(rows.len(), 3);
    assert_eq!(rows[0].table, "raydium_clmm_create_pool_events");
    assert_eq!(get(&rows[0], "instruction_index"), Some(&Value::Unsigned(1)));
    assert_eq!(get(&rows[0], "sqrt_price"), Some(&Value::Unsigned(9)));
}

#[test]
fn pumpfun_event_row() {
    let t = tx(vec![ins(PUMPFUN_PROGRAM_ID)], vec![]);
    let outs: Vec<Outcome> = vec![Ok(Some(ProtocolEvent::PumpfunWithdraw(PumpfunWithdrawEvent { mint: "mm".to_string() })))];
    let rows = process_block(&header(), &vec![t], &vec![outs]).unwrap();
    assert_eq!(rows[0].table, "pumpfun_withdraw_events");
    assert_eq!(get(&rows[0], "mint"), Some(&text("mm")));
}

#[test]
fn short_signature_is_kept_whole_in_partial_column() {
    let mut t = tx(vec![ins(RAYDIUM_AMM_PROGRAM_ID)], vec![]);
    t.signature = "ab".to_string();
    let rows = process_block(&header(), &vec![t], &vec![vec![swap_event()]]).unwrap();
    assert_eq!(get(&rows[0], "partial_signature"), Some(&text("ab")));
}
