//! One block in, one batch of rows out: each transaction in input order gets
//! a fresh tree and ledger, then one row per decoded event and one summary
//! row, and the block gets one row of its own.
use vstd::prelude::*;
use vstd::string::*;
use crate::ledger::{lookup, replay, BalanceTracker, LedgerError, TokenBalance};
use crate::rows::{
    column, columns_view, protocol_of, EventKind, protocol_spec, route, route_spec, rows_view, table_name,
    table_spec, text, Column, Row, RowView, Value, ValueView,
};
use crate::events::{event_columns, event_columns_spec, kind_of, kind_spec, ProtocolEvent};
use crate::tree::{
    build_tree, canonical_tree, describes, lemma_preorder_valid, lemma_top_bound, links_wf, sizes_fit, lemma_tree_unique, origin_valid,
    origins, preorder, sizes_fit_of, traces_in_range, well_nested, IndexedInstruction,
    InnerTrace, InstructionTree, Origin, RawInstruction, StructuralError,
};

verus! {

/// A transaction as the block carries it.
pub struct Transaction {
    pub signature: String,
    pub signers: Vec<String>,
    pub failed: bool,
    pub instructions: Vec<RawInstruction>,
    pub inner: Vec<InnerTrace>,
    pub pre_balances: Vec<TokenBalance>,
}

/// Why a transaction yields no rows.
#[derive(Clone, Copy, PartialEq, Eq, Structural, Debug)]
pub enum TxError {
    Nesting(StructuralError),
    Ledger(LedgerError),
}

pub open spec fn top_count(tx: Transaction) -> nat {
    tx.instructions@.len()
}

/// The instruction an origin names.
pub open spec fn instr_of(tx: Transaction, o: Origin) -> RawInstruction {
    match o {
        Origin::Top(i) => tx.instructions@[i as int],
        Origin::Inner(t, j) => tx.inner@[t as int].instructions@[j as int].instruction,
    }
}

/// The transaction's instructions in execution order.
pub open spec fn exec_order(tx: Transaction) -> Seq<RawInstruction> {
    preorder(tx.inner@, top_count(tx)).map_values(|o: Origin| instr_of(tx, o))
}

pub open spec fn seed_accounts(tx: Transaction) -> Seq<Seq<char>> {
    tx.pre_balances@.map_values(|b: TokenBalance| b.account@)
}

pub open spec fn seed_mints(tx: Transaction) -> Seq<Seq<char>> {
    tx.pre_balances@.map_values(|b: TokenBalance| b.mint@)
}

pub open spec fn seed_amounts(tx: Transaction) -> Seq<u64> {
    tx.pre_balances@.map_values(|b: TokenBalance| b.amount)
}

pub open spec fn structure_ok(tx: Transaction) -> bool {
    traces_in_range(tx.inner@, top_count(tx)) && well_nested(tx.inner@, top_count(tx))
}

pub open spec fn ledger_ok(tx: Transaction) -> bool {
    replay(seed_accounts(tx), seed_amounts(tx), exec_order(tx)) is Some
}

pub open spec fn tx_nodes(tx: Transaction) -> Seq<IndexedInstruction> {
    canonical_tree(tx.inner@, top_count(tx))
}

/// A transaction laid out as a tree, with the balances before each instruction.
pub struct Prepared {
    pub tree: InstructionTree,
    pub ledger: BalanceTracker,
    pub snapshots: Vec<Vec<u64>>,
}

impl Prepared {
    /// The tree is the transaction's call tree and snapshot `i` holds the
    /// balances after replaying the instructions before `i`.
    pub open spec fn ready_for(&self, tx: Transaction) -> bool {
        &&& self.tree.wf()
        &&& self.tree.nodes@ == tx_nodes(tx)
        &&& describes(self.tree.nodes@, tx.inner@, top_count(tx))
        &&& self.ledger.wf()
        &&& self.ledger.account_keys() == seed_accounts(tx)
        &&& self.ledger.mint_keys() == seed_mints(tx)
        &&& self.snapshots@.len() == self.tree.nodes@.len()
        &&& forall|i: int|
            0 <= i < self.snapshots@.len() ==> replay(
                seed_accounts(tx),
                seed_amounts(tx),
                exec_order(tx).take(i),
            ) == Some((#[trigger] self.snapshots@[i])@)
    }

    /// Balance of (`account`, `mint`) immediately before instruction `i`.
    pub fn balance_before(&self, i: usize, account: &String, mint: &String) -> (r: Option<u64>)
        ensures
            i < self.snapshots@.len() && self.ledger.wf() && self.snapshots@[i as int]@.len()
                == self.ledger.amounts@.len() ==> r == lookup(
                self.ledger.account_keys(),
                self.ledger.mint_keys(),
                self.snapshots@[i as int]@,
                account@,
                mint@,
            ),
    {
        if i >= self.snapshots.len() || self.ledger.accounts.len() != self.ledger.mints.len()
            || self.snapshots[i].len() != self.ledger.accounts.len() {
            return None;
        }
        match self.ledger.find(account) {
            Some(k) => {
                if self.ledger.mints[k] == *mint {
                    Some(self.snapshots[i][k])
                } else {
                    None
                }
            },
            None => None,
        }
    }
}

proof fn lemma_replay_none_extends(
    accounts: Seq<Seq<char>>,
    seed: Seq<u64>,
    s: Seq<RawInstruction>,
    i: int,
)
    requires
        0 <= i <= s.len(),
        replay(accounts, seed, s.take(i)) is None,
    ensures
        replay(accounts, seed, s) is None,
    decreases s.len() - i,
{
    if i < s.len() {
        assert(s.take(i + 1).drop_last() =~= s.take(i));
        lemma_replay_none_extends(accounts, seed, s, i + 1);
    } else {
        assert(s.take(i) =~= s);
    }
}

/// The instruction an origin names.
pub fn instruction_at<'a>(tx: &'a Transaction, o: Origin) -> (r: &'a RawInstruction)
    requires
        origin_valid(tx.inner@, top_count(*tx), o),
    ensures
        *r == instr_of(*tx, o),
{
    match o {
        Origin::Top(i) => &tx.instructions[i],
        Origin::Inner(t, j) => &tx.inner[t].instructions[j].instruction,
    }
}

/// Lays a transaction out as a tree and replays its ledger, keeping the
/// balances before each instruction. Fails when the nesting is malformed or
/// a balance would leave the 64-bit range.
pub fn prepare(tx: &Transaction) -> (r: Result<Prepared, TxError>)
    ensures
        r is Ok ==> structure_ok(*tx) && ledger_ok(*tx) && r->Ok_0.ready_for(*tx),
        r matches Err(TxError::Nesting(_)) ==> !structure_ok(*tx),
        r matches Err(TxError::Ledger(_)) ==> structure_ok(*tx) && !ledger_ok(*tx),
{
    let tree = match build_tree(tx.instructions.len(), &tx.inner) {
        Ok(t) => t,
        Err(e) => return Err(TxError::Nesting(e)),
    };
    sizes_fit_of(&tx.inner);
    let ghost n = top_count(*tx);
    let ghost order = exec_order(*tx);
    let ghost keys = seed_accounts(*tx);
    let ghost seed = seed_amounts(*tx);
    proof {
        lemma_preorder_valid(tx.inner@, n, n);
        lemma_tree_unique(tree.nodes@, tx_nodes(*tx), tx.inner@, n);
        assert(origins(tree.nodes@).len() == tree.nodes@.len());
    }
    let mut ledger = BalanceTracker::new(&tx.pre_balances);
    proof {
        assert(ledger.account_keys() =~= keys);
        assert(ledger.mint_keys() =~= seed_mints(*tx));
        assert(ledger.amounts@ =~= seed);
        assert(order.take(0) =~= Seq::<RawInstruction>::empty());
    }
    let mut snapshots: Vec<Vec<u64>> = Vec::new();
    let mut k: usize = 0;
    while k < tree.nodes.len()
        invariant
            k <= tree.nodes@.len(),
            tree.wf(),
            tree.nodes@ == tx_nodes(*tx),
            describes(tree.nodes@, tx.inner@, n),
            n == top_count(*tx),
            structure_ok(*tx),
            order == exec_order(*tx),
            order.len() == tree.nodes@.len(),
            keys == seed_accounts(*tx),
            seed == seed_amounts(*tx),
            forall|q: int|
                0 <= q < preorder(tx.inner@, n).len() ==> origin_valid(
                    tx.inner@,
                    n,
                    #[trigger] preorder(tx.inner@, n)[q],
                ),
            ledger.wf(),
            ledger.account_keys() == keys,
            ledger.mint_keys() == seed_mints(*tx),
            replay(keys, seed, order.take(k as int)) == Some(ledger.amounts@),
            snapshots@.len() == k,
            forall|i: int|
                0 <= i < k ==> replay(keys, seed, order.take(i)) == Some(
                    (#[trigger] snapshots@[i])@,
                ),
        decreases tree.nodes@.len() - k,
    {
        let o = tree.nodes[k].origin;
        proof {
            assert(origins(tree.nodes@)[k as int] == o);
            assert(preorder(tx.inner@, n)[k as int] == o);
        }
        let ins = instruction_at(tx, o);
        let mut snap: Vec<u64> = Vec::new();
        let mut q: usize = 0;
        while q < ledger.amounts.len()
            invariant
                q <= ledger.amounts@.len(),
                snap@ == ledger.amounts@.take(q as int),
            decreases ledger.amounts@.len() - q,
        {
            snap.push(ledger.amounts[q]);
            q += 1;
            assert(snap@ =~= ledger.amounts@.take(q as int));
        }
        assert(snap@ =~= ledger.amounts@);
        snapshots.push(snap);
        proof {
            assert(order[k as int] == instr_of(*tx, o));
            assert(order.take(k + 1).drop_last() =~= order.take(k as int));
            assert(order.take(k + 1).last() == *ins);
        }
        match ledger.update_balance(ins) {
            Ok(()) => {},
            Err(e) => {
                proof {
                    lemma_replay_none_extends(keys, seed, order, k + 1);
                }
                return Err(TxError::Ledger(e));
            },
        }
        k += 1;
    }
    proof {
        assert(order.take(k as int) =~= order);
    }
    Ok(Prepared { tree, ledger, snapshots })
}


/// What a decoder made of one instruction: an event, nothing, or a message
/// saying why the payload could not be read.
pub type Outcome = Result<Option<ProtocolEvent>, String>;

/// The first four characters of `s`, or all of it when shorter.
pub open spec fn prefix4_spec(s: Seq<char>) -> Seq<char> {
    if s.len() <= 4 {
        s
    } else {
        s.take(4)
    }
}

fn prefix4(s: &String) -> (r: String)
    ensures
        r@ == prefix4_spec(s@),
{
    let st = s.as_str();
    let n = st.unicode_len();
    let end: usize = if n < 4 {
        n
    } else {
        4
    };
    let r = String::from_str(st.substring_char(0, end));
    assert(s@.subrange(0, end as int) =~= prefix4_spec(s@));
    r
}

pub open spec fn key_spec(slot: u64, txi: usize, k: Option<usize>) -> Seq<(Seq<char>, ValueView)> {
    let base = seq![
        ("slot"@, ValueView::Unsigned(slot as int)),
        ("transaction_index"@, ValueView::Unsigned(txi as int)),
    ];
    match k {
        Some(i) => base.push(("instruction_index"@, ValueView::Unsigned(i as int))),
        None => base,
    }
}

/// Where an instruction sits in its call tree; a top-level instruction gets
/// the empty program id and index -1.
pub open spec fn provenance_spec(tx: Transaction, nodes: Seq<IndexedInstruction>, k: int) -> Seq<
    (Seq<char>, ValueView),
> {
    match nodes[k].parent {
        None => seq![
            ("parent_instruction_program_id"@, ValueView::Text(""@)),
            ("parent_instruction_index"@, ValueView::Signed(-1)),
            ("top_instruction_program_id"@, ValueView::Text(""@)),
            ("top_instruction_index"@, ValueView::Signed(-1)),
        ],
        Some(p) => seq![
            ("parent_instruction_program_id"@, ValueView::Text(instr_of(tx, nodes[p as int].origin).program_id@)),
            ("parent_instruction_index"@, ValueView::Signed(p as int)),
            ("top_instruction_program_id"@, ValueView::Text(instr_of(tx, nodes[nodes[k].top as int].origin).program_id@)),
            ("top_instruction_index"@, ValueView::Signed(nodes[k].top as int)),
        ],
    }
}

pub open spec fn event_row_spec(
    slot: u64,
    txi: usize,
    bh: Seq<char>,
    tx: Transaction,
    nodes: Seq<IndexedInstruction>,
    k: int,
    e: ProtocolEvent,
) -> RowView {
    RowView {
        table: table_spec(kind_spec(e)),
        key: key_spec(slot, txi, Some(k as usize)),
        columns: event_columns_spec(e)->Some_0 + provenance_spec(tx, nodes, k) + seq![
            ("partial_signature"@, ValueView::Text(prefix4_spec(tx.signature@))),
            ("partial_blockhash"@, ValueView::Text(prefix4_spec(bh))),
        ],
    }
}

/// Instruction `k` yields a row: its program is tracked and its decoder
/// reported an event of that protocol whose payload can be written.
pub open spec fn emitted(tx: Transaction, nodes: Seq<IndexedInstruction>, outs: Seq<Outcome>, k: int) -> bool {
    &&& k < outs.len()
    &&& outs[k] is Ok
    &&& outs[k]->Ok_0 is Some
    &&& route_spec(instr_of(tx, nodes[k].origin).program_id@) == Some(
        protocol_spec(kind_spec(outs[k]->Ok_0->Some_0)),
    )
    &&& event_columns_spec(outs[k]->Ok_0->Some_0) is Some
}

pub open spec fn event_rows_spec(
    slot: u64,
    txi: usize,
    bh: Seq<char>,
    tx: Transaction,
    nodes: Seq<IndexedInstruction>,
    outs: Seq<Outcome>,
    k: nat,
) -> Seq<RowView>
    decreases k,
{
    if k == 0 {
        Seq::empty()
    } else {
        let prev = event_rows_spec(slot, txi, bh, tx, nodes, outs, (k - 1) as nat);
        if emitted(tx, nodes, outs, k - 1) {
            prev.push(event_row_spec(slot, txi, bh, tx, nodes, k - 1, outs[k - 1]->Ok_0->Some_0))
        } else {
            prev
        }
    }
}

/// Number of individual signer columns of a summary row.
pub const SIGNER_COLUMNS: usize = 8;

pub open spec fn signer_col_spec(i: int) -> Seq<char> {
    if i == 0 {
        "signer0"@
    } else if i == 1 {
        "signer1"@
    } else if i == 2 {
        "signer2"@
    } else if i == 3 {
        "signer3"@
    } else if i == 4 {
        "signer4"@
    } else if i == 5 {
        "signer5"@
    } else if i == 6 {
        "signer6"@
    } else {
        "signer7"@
    }
}

pub open spec fn signer_columns_spec(signers: Seq<String>, i: nat) -> Seq<(Seq<char>, ValueView)>
    decreases i,
{
    if i == 0 {
        Seq::empty()
    } else {
        signer_columns_spec(signers, (i - 1) as nat).push(
            (
                signer_col_spec(i - 1),
                ValueView::Text(
                    if i - 1 < signers.len() {
                        signers[i - 1]@
                    } else {
                        ""@
                    },
                ),
            ),
        )
    }
}

pub open spec fn summary_spec(slot: u64, txi: usize, tx: Transaction) -> RowView {
    RowView {
        table: "transactions"@,
        key: key_spec(slot, txi, None),
        columns: seq![
            ("signature"@, ValueView::Text(tx.signature@)),
            ("number_of_signers"@, ValueView::Unsigned(tx.signers@.len() as int)),
        ] + signer_columns_spec(tx.signers@, SIGNER_COLUMNS as nat),
    }
}

/// Rows of one transaction: none when it failed or cannot be laid out or
/// replayed; else one per emitted event, in execution order, then its summary.
pub open spec fn tx_rows_spec(slot: u64, txi: usize, bh: Seq<char>, tx: Transaction, outs: Seq<Outcome>) -> Seq<
    RowView,
> {
    if tx.failed || !structure_ok(tx) || !ledger_ok(tx) {
        Seq::empty()
    } else {
        event_rows_spec(slot, txi, bh, tx, tx_nodes(tx), outs, tx_nodes(tx).len()).push(
            summary_spec(slot, txi, tx),
        )
    }
}

fn key_columns(slot: u64, txi: usize, k: Option<usize>) -> (r: Vec<Column>)
    ensures
        columns_view(r@) == key_spec(slot, txi, k),
{
    let mut v: Vec<Column> = Vec::new();
    v.push(column("slot", Value::Unsigned(slot as u128)));
    v.push(column("transaction_index", Value::Unsigned(txi as u128)));
    if let Some(i) = k {
        v.push(column("instruction_index", Value::Unsigned(i as u128)));
    }
    assert(columns_view(v@) =~= key_spec(slot, txi, k));
    v
}

/// Builds the row of an event of kind `kind` that instruction `k`
/// produced, from the columns the event fills.
pub fn event_row(
    slot: u64,
    txi: usize,
    blockhash: &String,
    tx: &Transaction,
    nodes: &Vec<IndexedInstruction>,
    k: usize,
    kind: EventKind,
    cols: Vec<Column>,
) -> (r: Row)
    requires
        links_wf(nodes@),
        k < nodes@.len(),
        forall|q: int|
            0 <= q < nodes@.len() ==> origin_valid(tx.inner@, top_count(*tx), #[trigger] nodes@[q].origin),
    ensures
        r.view() == (RowView {
            table: table_spec(kind),
            key: key_spec(slot, txi, Some(k)),
            columns: columns_view(cols@) + provenance_spec(*tx, nodes@, k as int) + seq![
                ("partial_signature"@, ValueView::Text(prefix4_spec(tx.signature@))),
                ("partial_blockhash"@, ValueView::Text(prefix4_spec(blockhash@))),
            ],
        }),
{
    let mut row = Row { table: table_name(kind), key: key_columns(slot, txi, Some(k)), columns: cols };
    proof {
        lemma_top_bound(nodes@, k as int);
    }
    let ghost base = row.view().columns;
    match nodes[k].parent {
        None => {
            row.set("parent_instruction_program_id", text(""));
            row.set("parent_instruction_index", Value::Signed(-1));
            row.set("top_instruction_program_id", text(""));
            row.set("top_instruction_index", Value::Signed(-1));
        },
        Some(p) => {
            let top = nodes[k].top;
            let parent_ins = instruction_at(tx, nodes[p].origin);
            let top_ins = instruction_at(tx, nodes[top].origin);
            row.set("parent_instruction_program_id", Value::Text(parent_ins.program_id.clone()));
            row.set("parent_instruction_index", Value::Signed(p as i128));
            row.set("top_instruction_program_id", Value::Text(top_ins.program_id.clone()));
            row.set("top_instruction_index", Value::Signed(top as i128));
        },
    }
    assert(row.view().columns =~= base + provenance_spec(*tx, nodes@, k as int));
    let ghost with_links = row.view().columns;
    row.set("partial_signature", Value::Text(prefix4(&tx.signature)));
    row.set("partial_blockhash", Value::Text(prefix4(blockhash)));
    assert(row.view().columns =~= with_links + seq![
        ("partial_signature"@, ValueView::Text(prefix4_spec(tx.signature@))),
        ("partial_blockhash"@, ValueView::Text(prefix4_spec(blockhash@))),
    ]);
    row
}

fn signer_col_name(i: usize) -> (r: &'static str)
    ensures
        r@ == signer_col_spec(i as int),
{
    if i == 0 {
        "signer0"
    } else if i == 1 {
        "signer1"
    } else if i == 2 {
        "signer2"
    } else if i == 3 {
        "signer3"
    } else if i == 4 {
        "signer4"
    } else if i == 5 {
        "signer5"
    } else if i == 6 {
        "signer6"
    } else {
        "signer7"
    }
}

/// The summary row of a transaction that succeeded.
pub fn summary_row(slot: u64, txi: usize, tx: &Transaction) -> (r: Row)
    ensures
        r.view() == summary_spec(slot, txi, *tx),
{
    let mut row = Row::new(String::from_str("transactions"), key_columns(slot, txi, None));
    row.set("signature", Value::Text(tx.signature.clone()));
    row.set("number_of_signers", Value::Unsigned(tx.signers.len() as u128));
    let ghost head = row.view().columns;
    assert(head =~= seq![
        ("signature"@, ValueView::Text(tx.signature@)),
        ("number_of_signers"@, ValueView::Unsigned(tx.signers@.len() as int)),
    ]);
    assert(head + signer_columns_spec(tx.signers@, 0) =~= head);
    let mut i: usize = 0;
    while i < SIGNER_COLUMNS
        invariant
            i <= SIGNER_COLUMNS,
            row.view() == (RowView {
                table: "transactions"@,
                key: key_spec(slot, txi, None),
                columns: head + signer_columns_spec(tx.signers@, i as nat),
            }),
        decreases SIGNER_COLUMNS - i,
    {
        let v = if i < tx.signers.len() {
            Value::Text(tx.signers[i].clone())
        } else {
            text("")
        };
        row.set(signer_col_name(i), v);
        assert(head + signer_columns_spec(tx.signers@, (i + 1) as nat) =~= (head
            + signer_columns_spec(tx.signers@, i as nat)).push((signer_col_spec(i as int), v.view())));
        i += 1;
    }
    row
}

proof fn lemma_rows_view_push(r: Seq<Row>, x: Row)
    ensures
        rows_view(r.push(x)) == rows_view(r).push(x.view()),
{
    assert(rows_view(r.push(x)) =~= rows_view(r).push(x.view()));
}

/// Appends the rows of a prepared transaction: one per emitted event, in
/// execution order, then the summary row.
pub fn transaction_rows(
    batch: &mut Vec<Row>,
    slot: u64,
    txi: usize,
    blockhash: &String,
    tx: &Transaction,
    prepared: &Prepared,
    outs: &Vec<Outcome>,
)
    requires
        prepared.ready_for(*tx),
    ensures
        rows_view(final(batch)@) == rows_view(old(batch)@) + event_rows_spec(
            slot,
            txi,
            blockhash@,
            *tx,
            tx_nodes(*tx),
            outs@,
            tx_nodes(*tx).len(),
        ).push(summary_spec(slot, txi, *tx)),
{
    sizes_fit_of(&tx.inner);
    let _ = tx.instructions.len();
    let nodes = &prepared.tree.nodes;
    let ghost start = rows_view(batch@);
    proof {
        lemma_preorder_valid(tx.inner@, top_count(*tx), top_count(*tx));
        assert(origins(nodes@).len() == nodes@.len());
        assert forall|q: int| 0 <= q < nodes@.len() implies origin_valid(tx.inner@, top_count(*tx), #[trigger] nodes@[q].origin) by {
            assert(origins(nodes@)[q] == nodes@[q].origin);
        }
        assert(start + event_rows_spec(slot, txi, blockhash@, *tx, nodes@, outs@, 0) =~= start);
    }
    let mut k: usize = 0;
    while k < nodes.len()
        invariant
            k <= nodes@.len(),
            prepared.ready_for(*tx),
            nodes == &prepared.tree.nodes,
            forall|q: int|
                0 <= q < nodes@.len() ==> origin_valid(tx.inner@, top_count(*tx), #[trigger] nodes@[q].origin),
            rows_view(batch@) == start + event_rows_spec(slot, txi, blockhash@, *tx, nodes@, outs@, k as nat),
        decreases nodes@.len() - k,
    {
        let ins = instruction_at(tx, nodes[k].origin);
        let ghost before = batch@;
        if k < outs.len() {
            if let Ok(Some(e)) = &outs[k] {
                if let Some(proto) = route(&ins.program_id) {
                    let kind = kind_of(e);
                    if protocol_of(kind) == proto {
                        if let Some(cols) = event_columns(e) {
                            let row = event_row(slot, txi, blockhash, tx, nodes, k, kind, cols);
                            batch.push(row);
                            proof {
                                lemma_rows_view_push(before, row);
                            }
                        }
                    }
                }
            }
        }
        k += 1;
    }
    let row = summary_row(slot, txi, tx);
    let ghost before = batch@;
    batch.push(row);
    proof {
        lemma_rows_view_push(before, row);
    }
}

/// How a transaction went.
#[derive(Clone, Copy, PartialEq, Eq, Structural, Debug)]
pub enum TxStatus {
    /// It failed on chain and contributes nothing.
    Failed,
    /// Its trace or ledger is inconsistent; it contributes nothing.
    Rejected(TxError),
    /// Its rows were appended.
    Processed,
}

/// Appends the rows of one transaction. `outs[k]` is what the decoder of
/// instruction `k`'s program made of it.
pub fn collect_transaction(
    batch: &mut Vec<Row>,
    slot: u64,
    txi: usize,
    blockhash: &String,
    tx: &Transaction,
    outs: &Vec<Outcome>,
) -> (r: TxStatus)
    ensures
        rows_view(final(batch)@) == rows_view(old(batch)@) + tx_rows_spec(slot, txi, blockhash@, *tx, outs@),
        tx.failed <==> r == TxStatus::Failed,
        !tx.failed ==> (r == TxStatus::Processed <==> structure_ok(*tx) && ledger_ok(*tx)),
{
    if tx.failed {
        assert(rows_view(batch@) + Seq::<RowView>::empty() =~= rows_view(batch@));
        return TxStatus::Failed;
    }
    match prepare(tx) {
        Err(e) => {
            assert(rows_view(batch@) + Seq::<RowView>::empty() =~= rows_view(batch@));
            TxStatus::Rejected(e)
        },
        Ok(p) => {
            transaction_rows(batch, slot, txi, blockhash, tx, &p, outs);
            TxStatus::Processed
        },
    }
}


/// The block-level fields of the input.
pub struct BlockHeader {
    pub slot: u64,
    pub parent_slot: u64,
    pub block_height: Option<u64>,
    pub blockhash: String,
    pub previous_blockhash: String,
    pub block_time: Option<i64>,
}

/// A missing required block field: the whole block is abandoned.
#[derive(Clone, Copy, PartialEq, Eq, Structural, Debug)]
pub enum FatalError {
    MissingBlockHeight,
    MissingBlockTime,
}

pub open spec fn block_row_spec(h: BlockHeader, height: u64, time: i64) -> RowView {
    RowView {
        table: "blocks"@,
        key: seq![("slot"@, ValueView::Unsigned(h.slot as int))],
        columns: seq![
            ("parent_slot"@, ValueView::Unsigned(h.parent_slot as int)),
            ("block_height"@, ValueView::Unsigned(height as int)),
            ("blockhash"@, ValueView::Text(h.blockhash@)),
            ("previous_blockhash"@, ValueView::Text(h.previous_blockhash@)),
            ("block_time"@, ValueView::Signed(time as int)),
        ],
    }
}

/// The decoder outcomes given for transaction `i`; none when none were given.
pub open spec fn outs_for(outs: Seq<Vec<Outcome>>, i: int) -> Seq<Outcome> {
    if 0 <= i < outs.len() {
        outs[i]@
    } else {
        Seq::empty()
    }
}

/// Rows of the first `k` transactions, in input order.
pub open spec fn block_tx_rows(slot: u64, bh: Seq<char>, txs: Seq<Transaction>, outs: Seq<Vec<Outcome>>, k: nat) -> Seq<
    RowView,
>
    decreases k,
{
    if k == 0 {
        Seq::empty()
    } else {
        block_tx_rows(slot, bh, txs, outs, (k - 1) as nat) + tx_rows_spec(
            slot,
            (k - 1) as usize,
            bh,
            txs[k - 1],
            outs_for(outs, k - 1),
        )
    }
}

/// The batch of a block, or the fatal error that abandons it.
pub open spec fn block_spec(h: BlockHeader, txs: Seq<Transaction>, outs: Seq<Vec<Outcome>>) -> Result<
    Seq<RowView>,
    FatalError,
> {
    match h.block_height {
        None => Err(FatalError::MissingBlockHeight),
        Some(height) => match h.block_time {
            None => Err(FatalError::MissingBlockTime),
            Some(time) => Ok(
                block_tx_rows(h.slot, h.blockhash@, txs, outs, txs.len()).push(block_row_spec(h, height, time)),
            ),
        },
    }
}

/// The row of the block itself.
pub fn block_row(h: &BlockHeader) -> (r: Result<Row, FatalError>)
    ensures
        match r {
            Ok(row) => h.block_height is Some && h.block_time is Some && row.view()
                == block_row_spec(*h, h.block_height->Some_0, h.block_time->Some_0),
            Err(e) => (h.block_height is None && e == FatalError::MissingBlockHeight) || (
            h.block_height is Some && h.block_time is None && e == FatalError::MissingBlockTime),
        },
{
    let height = match h.block_height {
        Some(x) => x,
        None => return Err(FatalError::MissingBlockHeight),
    };
    let time = match h.block_time {
        Some(x) => x,
        None => return Err(FatalError::MissingBlockTime),
    };
    let mut key: Vec<Column> = Vec::new();
    key.push(column("slot", Value::Unsigned(h.slot as u128)));
    let mut row = Row::new(String::from_str("blocks"), key);
    row.set("parent_slot", Value::Unsigned(h.parent_slot as u128));
    row.set("block_height", Value::Unsigned(height as u128));
    row.set("blockhash", Value::Text(h.blockhash.clone()));
    row.set("previous_blockhash", Value::Text(h.previous_blockhash.clone()));
    row.set("block_time", Value::Signed(time as i128));
    assert(row.view().key =~= block_row_spec(*h, height, time).key);
    assert(row.view().columns =~= block_row_spec(*h, height, time).columns);
    Ok(row)
}

/// Processes a block: its transactions strictly in input order, then the
/// block row, all released as one batch. `outs[i][k]` is the decoder outcome
/// of instruction `k` of transaction `i`.
pub fn process_block(h: &BlockHeader, txs: &Vec<Transaction>, outs: &Vec<Vec<Outcome>>) -> (r:
    Result<Vec<Row>, FatalError>)
    ensures
        match block_spec(*h, txs@, outs@) {
            Ok(rows) => r is Ok && rows_view(r->Ok_0@) == rows,
            Err(e) => r == Err::<Vec<Row>, FatalError>(e),
        },
{
    let last = match block_row(h) {
        Ok(row) => row,
        Err(e) => return Err(e),
    };
    let mut batch: Vec<Row> = Vec::new();
    let none: Vec<Outcome> = Vec::new();
    let mut i: usize = 0;
    assert(rows_view(batch@) =~= block_tx_rows(h.slot, h.blockhash@, txs@, outs@, 0));
    while i < txs.len()
        invariant
            i <= txs@.len(),
            none@.len() == 0,
            rows_view(batch@) == block_tx_rows(h.slot, h.blockhash@, txs@, outs@, i as nat),
        decreases txs@.len() - i,
    {
        let o = if i < outs.len() {
            &outs[i]
        } else {
            &none
        };
        assert(o@ =~= outs_for(outs@, i as int));
        let _ = collect_transaction(&mut batch, h.slot, i, &h.blockhash, &txs[i], o);
        i += 1;
    }
    let ghost before = batch@;
    batch.push(last);
    proof {
        lemma_rows_view_push(before, last);
    }
    Ok(batch)
}

/// Number of rows of table `t`.
pub open spec fn count_table(rows: Seq<RowView>, t: Seq<char>) -> nat
    decreases rows.len(),
{
    if rows.len() == 0 {
        0
    } else {
        count_table(rows.drop_last(), t) + if rows.last().table == t {
            1nat
        } else {
            0nat
        }
    }
}

proof fn lemma_count_concat(a: Seq<RowView>, b: Seq<RowView>, t: Seq<char>)
    ensures
        count_table(a + b, t) == count_table(a, t) + count_table(b, t),
    decreases b.len(),
{
    if b.len() > 0 {
        assert((a + b).drop_last() =~= a + b.drop_last());
        lemma_count_concat(a, b.drop_last(), t);
    } else {
        assert(a + b =~= a);
    }
}

proof fn lemma_no_block_rows_events(
    slot: u64,
    txi: usize,
    bh: Seq<char>,
    tx: Transaction,
    nodes: Seq<IndexedInstruction>,
    outs: Seq<Outcome>,
    k: nat,
)
    ensures
        count_table(event_rows_spec(slot, txi, bh, tx, nodes, outs, k), "blocks"@) == 0,
    decreases k,
{
    reveal_strlit("blocks");
    if k > 0 {
        lemma_no_block_rows_events(slot, txi, bh, tx, nodes, outs, (k - 1) as nat);
        let prev = event_rows_spec(slot, txi, bh, tx, nodes, outs, (k - 1) as nat);
        if emitted(tx, nodes, outs, k - 1) {
            let e = outs[k - 1]->Ok_0->Some_0;
            let row = event_row_spec(slot, txi, bh, tx, nodes, k - 1, e);
            assert(prev.push(row).drop_last() =~= prev);
            lemma_event_table_not_blocks(kind_spec(e));
        }
    }
}

proof fn lemma_event_table_not_blocks(k: EventKind)
    ensures
        table_spec(k) != "blocks"@,
{
    reveal_strlit("blocks");
    reveal_strlit("raydium_amm_swap_events");
    reveal_strlit("raydium_amm_initialize_events");
    reveal_strlit("raydium_amm_deposit_events");
    reveal_strlit("raydium_amm_withdraw_events");
    reveal_strlit("raydium_amm_withdraw_pnl_events");
    reveal_strlit("raydium_clmm_create_pool_events");
    reveal_strlit("pumpfun_create_events");
    reveal_strlit("pumpfun_initialize_events");
    reveal_strlit("pumpfun_set_params_events");
    reveal_strlit("pumpfun_swap_events");
    reveal_strlit("pumpfun_withdraw_events");
    assert(table_spec(k)[0] != "blocks"@[0]);
}

proof fn lemma_no_block_rows_tx(slot: u64, txi: usize, bh: Seq<char>, tx: Transaction, outs: Seq<Outcome>)
    ensures
        count_table(tx_rows_spec(slot, txi, bh, tx, outs), "blocks"@) == 0,
{
    reveal_strlit("blocks");
    reveal_strlit("transactions");
    if !(tx.failed || !structure_ok(tx) || !ledger_ok(tx)) {
        let ev = event_rows_spec(slot, txi, bh, tx, tx_nodes(tx), outs, tx_nodes(tx).len());
        lemma_no_block_rows_events(slot, txi, bh, tx, tx_nodes(tx), outs, tx_nodes(tx).len());
        assert(ev.push(summary_spec(slot, txi, tx)).drop_last() =~= ev);
        assert("transactions"@[0] != "blocks"@[0]);
    }
}

proof fn lemma_no_block_rows_block(slot: u64, bh: Seq<char>, txs: Seq<Transaction>, outs: Seq<Vec<Outcome>>, k: nat)
    ensures
        count_table(block_tx_rows(slot, bh, txs, outs, k), "blocks"@) == 0,
    decreases k,
{
    if k > 0 {
        lemma_no_block_rows_block(slot, bh, txs, outs, (k - 1) as nat);
        lemma_no_block_rows_tx(slot, (k - 1) as usize, bh, txs[k - 1], outs_for(outs, k - 1));
        lemma_count_concat(
            block_tx_rows(slot, bh, txs, outs, (k - 1) as nat),
            tx_rows_spec(slot, (k - 1) as usize, bh, txs[k - 1], outs_for(outs, k - 1)),
            "blocks"@,
        );
    }
}

/// A transaction that failed on chain contributes no event row and no
/// summary row, whatever its decoders reported; and every batch holds
/// exactly one `blocks` row, whether or not anything else was emitted.
pub proof fn lemma_failed_transaction_contributes_nothing(
    h: BlockHeader,
    txs: Seq<Transaction>,
    outs: Seq<Vec<Outcome>>,
    i: int,
)
    requires
        0 <= i < txs.len(),
        txs[i].failed,
    ensures
        tx_rows_spec(h.slot, i as usize, h.blockhash@, txs[i], outs_for(outs, i)) == Seq::<RowView>::empty(),
        block_spec(h, txs, outs) is Ok ==> count_table(block_spec(h, txs, outs)->Ok_0, "blocks"@)
            == 1,
{
    lemma_one_block_row(h, txs, outs);
}

/// Every batch holds exactly one `blocks` row.
pub proof fn lemma_one_block_row(h: BlockHeader, txs: Seq<Transaction>, outs: Seq<Vec<Outcome>>)
    ensures
        block_spec(h, txs, outs) is Ok ==> count_table(block_spec(h, txs, outs)->Ok_0, "blocks"@)
            == 1,
{
    if block_spec(h, txs, outs) is Ok {
        let rows = block_tx_rows(h.slot, h.blockhash@, txs, outs, txs.len());
        lemma_no_block_rows_block(h.slot, h.blockhash@, txs, outs, txs.len());
        let last = block_row_spec(h, h.block_height->Some_0, h.block_time->Some_0);
        assert(rows.push(last).drop_last() =~= rows);
    }
}

/// The rows of a transaction do not depend on how its tree was built: any
/// well-formed arena that describes the trace yields the same rows, so
/// processing the same block twice yields the same batch.
pub proof fn lemma_rows_independent_of_tree(
    slot: u64,
    txi: usize,
    bh: Seq<char>,
    tx: Transaction,
    outs: Seq<Outcome>,
    s: Seq<IndexedInstruction>,
)
    requires
        links_wf(s),
        describes(s, tx.inner@, top_count(tx)),
    ensures
        s == tx_nodes(tx),
        !tx.failed && structure_ok(tx) && ledger_ok(tx) ==> tx_rows_spec(slot, txi, bh, tx, outs)
            == event_rows_spec(slot, txi, bh, tx, s, outs, s.len()).push(summary_spec(slot, txi, tx)),
{
    lemma_tree_unique(s, tx_nodes(tx), tx.inner@, top_count(tx));
}

} // verus!
