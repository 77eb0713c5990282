//! Output rows, the protocol registry and the event kinds that select a table.
use vstd::prelude::*;
use vstd::string::*;

verus! {

pub const RAYDIUM_AMM_PROGRAM_ID: &'static str = "675kPX9MHTjS2zt1qfr1NYHuzeLXfQM9H24wFSUt1Mp8";

pub const RAYDIUM_CLMM_PROGRAM_ID: &'static str = "CAMMCzo5YL8w4VFF8KVHrK22GGUsp5VTaW7grrKgrWqK";

pub const PUMPFUN_PROGRAM_ID: &'static str = "6EF8rrecthR5Dkzon8Nwu78hRvfCKubJ14M5uBEwF6P";

/// A column value; wide integers are written out in decimal downstream.
#[derive(Debug, PartialEq, Eq)]
pub enum Value {
    Text(String),
    Unsigned(u128),
    Signed(i128),
}

pub enum ValueView {
    Text(Seq<char>),
    Unsigned(int),
    Signed(int),
}

impl Value {
    pub open spec fn view(&self) -> ValueView {
        match self {
            Value::Text(s) => ValueView::Text(s@),
            Value::Unsigned(u) => ValueView::Unsigned(*u as int),
            Value::Signed(i) => ValueView::Signed(*i as int),
        }
    }
}

#[derive(Debug, PartialEq, Eq)]
pub struct Column {
    pub name: String,
    pub value: Value,
}

impl Column {
    pub open spec fn view(&self) -> (Seq<char>, ValueView) {
        (self.name@, self.value.view())
    }
}

pub open spec fn columns_view(c: Seq<Column>) -> Seq<(Seq<char>, ValueView)> {
    c.map_values(|x: Column| x.view())
}

pub struct RowView {
    pub table: Seq<char>,
    pub key: Seq<(Seq<char>, ValueView)>,
    pub columns: Seq<(Seq<char>, ValueView)>,
}

/// One row of a table: its name, the columns that key it, and the rest.
#[derive(Debug, PartialEq, Eq)]
pub struct Row {
    pub table: String,
    pub key: Vec<Column>,
    pub columns: Vec<Column>,
}

impl Row {
    pub open spec fn view(&self) -> RowView {
        RowView { table: self.table@, key: columns_view(self.key@), columns: columns_view(self.columns@) }
    }

    pub fn new(table: String, key: Vec<Column>) -> (r: Row)
        ensures
            r.view() == (RowView { table: table@, key: columns_view(key@), columns: Seq::empty() }),
    {
        let r = Row { table, key, columns: Vec::new() };
        assert(columns_view(r.columns@) =~= Seq::empty());
        r
    }

    /// Appends a column.
    pub fn set(&mut self, name: &str, value: Value)
        ensures
            final(self).view() == (RowView {
                columns: old(self).view().columns.push((name@, value.view())),
                ..old(self).view()
            }),
    {
        let c = Column { name: String::from_str(name), value };
        let ghost before = self.columns@;
        self.columns.push(c);
        assert(columns_view(self.columns@) =~= columns_view(before).push(c.view()));
    }
}

pub open spec fn rows_view(r: Seq<Row>) -> Seq<RowView> {
    r.map_values(|x: Row| x.view())
}

pub fn text(s: &str) -> (r: Value)
    ensures
        r.view() == ValueView::Text(s@),
{
    Value::Text(String::from_str(s))
}

pub fn column(name: &str, value: Value) -> (r: Column)
    ensures
        r.view() == (name@, value.view()),
{
    Column { name: String::from_str(name), value }
}

/// The supported protocols.
#[derive(Clone, Copy, PartialEq, Eq, Structural, Debug)]
pub enum Protocol {
    RaydiumAmm,
    RaydiumClmm,
    Pumpfun,
}

pub open spec fn route_spec(program_id: Seq<char>) -> Option<Protocol> {
    if program_id == RAYDIUM_AMM_PROGRAM_ID@ {
        Some(Protocol::RaydiumAmm)
    } else if program_id == PUMPFUN_PROGRAM_ID@ {
        Some(Protocol::Pumpfun)
    } else if program_id == RAYDIUM_CLMM_PROGRAM_ID@ {
        Some(Protocol::RaydiumClmm)
    } else {
        None
    }
}

/// The protocol whose decoder handles instructions of `program_id`, by exact
/// match; most programs have none.
pub fn route(program_id: &String) -> (r: Option<Protocol>)
    ensures
        r == route_spec(program_id@),
{
    if *program_id == String::from_str(RAYDIUM_AMM_PROGRAM_ID) {
        Some(Protocol::RaydiumAmm)
    } else if *program_id == String::from_str(PUMPFUN_PROGRAM_ID) {
        Some(Protocol::Pumpfun)
    } else if *program_id == String::from_str(RAYDIUM_CLMM_PROGRAM_ID) {
        Some(Protocol::RaydiumClmm)
    } else {
        None
    }
}

/// Every kind of event the decoders report.
#[derive(Clone, Copy, PartialEq, Eq, Structural, Debug)]
pub enum EventKind {
    AmmSwap,
    AmmInitialize,
    AmmDeposit,
    AmmWithdraw,
    AmmWithdrawPnl,
    ClmmCreatePool,
    PumpfunCreate,
    PumpfunInitialize,
    PumpfunSetParams,
    PumpfunSwap,
    PumpfunWithdraw,
}

pub open spec fn protocol_spec(k: EventKind) -> Protocol {
    match k {
        EventKind::AmmSwap | EventKind::AmmInitialize | EventKind::AmmDeposit
        | EventKind::AmmWithdraw | EventKind::AmmWithdrawPnl => Protocol::RaydiumAmm,
        EventKind::ClmmCreatePool => Protocol::RaydiumClmm,
        _ => Protocol::Pumpfun,
    }
}

pub fn protocol_of(k: EventKind) -> (r: Protocol)
    ensures
        r == protocol_spec(k),
{
    match k {
        EventKind::AmmSwap | EventKind::AmmInitialize | EventKind::AmmDeposit
        | EventKind::AmmWithdraw | EventKind::AmmWithdrawPnl => Protocol::RaydiumAmm,
        EventKind::ClmmCreatePool => Protocol::RaydiumClmm,
        _ => Protocol::Pumpfun,
    }
}

pub open spec fn table_spec(k: EventKind) -> Seq<char> {
    match k {
        EventKind::AmmSwap => "raydium_amm_swap_events"@,
        EventKind::AmmInitialize => "raydium_amm_initialize_events"@,
        EventKind::AmmDeposit => "raydium_amm_deposit_events"@,
        EventKind::AmmWithdraw => "raydium_amm_withdraw_events"@,
        EventKind::AmmWithdrawPnl => "raydium_amm_withdraw_pnl_events"@,
        EventKind::ClmmCreatePool => "raydium_clmm_create_pool_events"@,
        EventKind::PumpfunCreate => "pumpfun_create_events"@,
        EventKind::PumpfunInitialize => "pumpfun_initialize_events"@,
        EventKind::PumpfunSetParams => "pumpfun_set_params_events"@,
        EventKind::PumpfunSwap => "pumpfun_swap_events"@,
        EventKind::PumpfunWithdraw => "pumpfun_withdraw_events"@,
    }
}

/// The table that holds events of kind `k`.
pub fn table_name(k: EventKind) -> (r: String)
    ensures
        r@ == table_spec(k),
{
    let s: &str = match k {
        EventKind::AmmSwap => "raydium_amm_swap_events",
        EventKind::AmmInitialize => "raydium_amm_initialize_events",
        EventKind::AmmDeposit => "raydium_amm_deposit_events",
        EventKind::AmmWithdraw => "raydium_amm_withdraw_events",
        EventKind::AmmWithdrawPnl => "raydium_amm_withdraw_pnl_events",
        EventKind::ClmmCreatePool => "raydium_clmm_create_pool_events",
        EventKind::PumpfunCreate => "pumpfun_create_events",
        EventKind::PumpfunInitialize => "pumpfun_initialize_events",
        EventKind::PumpfunSetParams => "pumpfun_set_params_events",
        EventKind::PumpfunSwap => "pumpfun_swap_events",
        EventKind::PumpfunWithdraw => "pumpfun_withdraw_events",
    };
    String::from_str(s)
}

/// Little-endian value of `b`.
pub open spec fn le_value(b: Seq<u8>) -> nat
    decreases b.len(),
{
    if b.len() == 0 {
        0
    } else {
        b[0] as nat + 256 * le_value(b.skip(1))
    }
}

/// Reads a 16-byte little-endian price; any other length is refused.
pub fn u128_from_le(b: &Vec<u8>) -> (r: Option<u128>)
    ensures
        b@.len() == 16 ==> r is Some && r->Some_0 as nat == le_value(b@),
        b@.len() != 16 ==> r is None,
{
    if b.len() != 16 {
        return None;
    }
    let mut acc: u128 = 0;
    let mut i: usize = 16;
    assert(b@.skip(16) =~= Seq::<u8>::empty());
    while i > 0
        invariant
            i <= 16,
            b@.len() == 16,
            acc as nat == le_value(b@.skip(i as int)),
            (acc as nat) < pow256((16 - i) as nat),
        decreases i,
    {
        let byte = b[i - 1];
        proof {
            assert(b@.skip(i - 1).skip(1) =~= b@.skip(i as int));
            lemma_pow256_step(acc as nat, byte as nat, (16 - i) as nat);
            lemma_pow256_le((17 - i) as nat, 16);
        }
        acc = acc * 256 + byte as u128;
        i -= 1;
    }
    assert(b@.skip(0) =~= b@);
    Some(acc)
}

pub open spec fn pow256(n: nat) -> nat
    decreases n,
{
    if n == 0 {
        1
    } else {
        256 * pow256((n - 1) as nat)
    }
}

proof fn lemma_pow256_step(acc: nat, byte: nat, n: nat)
    requires
        acc < pow256(n),
        byte < 256,
    ensures
        acc * 256 + byte < pow256(n + 1),
{
    assert(pow256(n + 1) == 256 * pow256(n));
    assert(acc * 256 + byte < 256 * pow256(n)) by (nonlinear_arith)
        requires
            acc < pow256(n),
            byte < 256,
    ;
}

proof fn lemma_pow256_le(a: nat, b: nat)
    requires
        a <= b,
    ensures
        pow256(a) <= pow256(b),
        pow256(16) == 0x1_0000_0000_0000_0000_0000_0000_0000_0000,
    decreases b,
{
    reveal_with_fuel(pow256, 17);
    if a < b {
        lemma_pow256_le(a, (b - 1) as nat);
    }
}

} // verus!
