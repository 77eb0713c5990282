//! The events the three protocol decoders report, and the columns each one
//! fills in its table.
use vstd::prelude::*;
use vstd::string::*;
use crate::rows::{column, columns_view, le_value, u128_from_le, Column, EventKind, Value, ValueView};

verus! {

/// A swap on a Raydium AMM pool.
pub struct AmmSwapEvent {
    pub amm: String,
    pub user: String,
    pub amount_in: u64,
    pub amount_out: u64,
    pub mint_in: String,
    pub mint_out: String,
    pub direction: String,
    pub pool_pc_amount: Option<u64>,
    pub pool_coin_amount: Option<u64>,
    pub user_pre_balance_in: Option<u64>,
    pub user_pre_balance_out: Option<u64>,
}

/// A Raydium AMM pool being initialized.
pub struct AmmInitializeEvent {
    pub amm: String,
    pub user: String,
    pub pc_init_amount: u64,
    pub coin_init_amount: u64,
    pub lp_init_amount: u64,
    pub pc_mint: String,
    pub coin_mint: String,
    pub lp_mint: String,
    pub user_pc_pre_balance: Option<u64>,
    pub user_coin_pre_balance: Option<u64>,
}

/// Liquidity added to or removed from a Raydium AMM pool.
pub struct AmmLiquidityEvent {
    pub amm: String,
    pub user: String,
    pub pc_amount: u64,
    pub coin_amount: u64,
    pub pool_pc_amount: Option<u64>,
    pub pool_coin_amount: Option<u64>,
    pub lp_amount: u64,
    pub pc_mint: String,
    pub coin_mint: String,
    pub lp_mint: String,
    pub user_pc_pre_balance: Option<u64>,
    pub user_coin_pre_balance: Option<u64>,
}

/// Protocol fees withdrawn from a Raydium AMM pool.
pub struct AmmWithdrawPnlEvent {
    pub amm: String,
    pub user: String,
    pub pc_amount: Option<u64>,
    pub coin_amount: Option<u64>,
    pub pc_mint: Option<String>,
    pub coin_mint: Option<String>,
}

/// A Raydium concentrated-liquidity pool being created; the price is the
/// pool's square root price, 16 little-endian bytes.
pub struct ClmmCreatePoolEvent {
    pub amm: String,
    pub creator: String,
    pub token0_mint: String,
    pub token1_mint: String,
    pub token0_vault: String,
    pub token1_vault: String,
    pub token0_program: String,
    pub token1_program: String,
    pub sqrt_price: Vec<u8>,
    pub open_time: u64,
}

/// A token launched on pump.fun.
pub struct PumpfunCreateEvent {
    pub user: String,
    pub name: String,
    pub symbol: String,
    pub uri: String,
    pub mint: String,
    pub bonding_curve: String,
    pub associated_bonding_curve: String,
    pub metadata: String,
}

/// The pump.fun program being initialized.
pub struct PumpfunInitializeEvent {
    pub user: String,
}

/// pump.fun's global parameters being set.
pub struct PumpfunSetParamsEvent {
    pub user: String,
    pub fee_recipient: String,
    pub initial_virtual_token_reserves: u64,
    pub initial_virtual_sol_reserves: u64,
    pub initial_real_token_reserves: u64,
    pub token_total_supply: u64,
    pub fee_basis_points: u64,
}

/// A trade on a pump.fun bonding curve.
pub struct PumpfunSwapEvent {
    pub user: String,
    pub mint: String,
    pub bonding_curve: String,
    pub token_amount: u64,
    pub direction: String,
    pub sol_amount: Option<u64>,
    pub virtual_sol_reserves: Option<u64>,
    pub virtual_token_reserves: Option<u64>,
    pub real_sol_reserves: Option<u64>,
    pub real_token_reserves: Option<u64>,
}

/// A completed pump.fun curve being withdrawn.
pub struct PumpfunWithdrawEvent {
    pub mint: String,
}

/// Any decoded event, tagged by kind.
pub enum ProtocolEvent {
    AmmSwap(AmmSwapEvent),
    AmmInitialize(AmmInitializeEvent),
    AmmDeposit(AmmLiquidityEvent),
    AmmWithdraw(AmmLiquidityEvent),
    AmmWithdrawPnl(AmmWithdrawPnlEvent),
    ClmmCreatePool(ClmmCreatePoolEvent),
    PumpfunCreate(PumpfunCreateEvent),
    PumpfunInitialize(PumpfunInitializeEvent),
    PumpfunSetParams(PumpfunSetParamsEvent),
    PumpfunSwap(PumpfunSwapEvent),
    PumpfunWithdraw(PumpfunWithdrawEvent),
}

/// An optional amount, zero when absent.
pub open spec fn amount_or_zero(o: Option<u64>) -> int {
    match o {
        Some(x) => x as int,
        None => 0,
    }
}

/// An optional text, empty when absent.
pub open spec fn text_or_empty(o: Option<String>) -> Seq<char> {
    match o {
        Some(s) => s@,
        None => Seq::empty(),
    }
}

fn amount_value(o: Option<u64>) -> (r: Value)
    ensures
        r.view() == ValueView::Unsigned(amount_or_zero(o)),
{
    match o {
        Some(x) => Value::Unsigned(x as u128),
        None => Value::Unsigned(0),
    }
}

fn text_value(o: &Option<String>) -> (r: Value)
    ensures
        r.view() == ValueView::Text(text_or_empty(*o)),
{
    match o {
        Some(s) => Value::Text(s.clone()),
        None => Value::Text(String::new()),
    }
}

pub open spec fn amm_swap_columns_spec(e: AmmSwapEvent) -> Seq<(Seq<char>, ValueView)> {
    seq![
        ("amm"@, ValueView::Text(e.amm@)),
        ("user"@, ValueView::Text(e.user@)),
        ("amount_in"@, ValueView::Unsigned(e.amount_in as int)),
        ("amount_out"@, ValueView::Unsigned(e.amount_out as int)),
        ("mint_in"@, ValueView::Text(e.mint_in@)),
        ("mint_out"@, ValueView::Text(e.mint_out@)),
        ("direction"@, ValueView::Text(e.direction@)),
        ("pool_pc_amount"@, ValueView::Unsigned(amount_or_zero(e.pool_pc_amount))),
        ("pool_coin_amount"@, ValueView::Unsigned(amount_or_zero(e.pool_coin_amount))),
        ("user_pre_balance_in"@, ValueView::Unsigned(amount_or_zero(e.user_pre_balance_in))),
        ("user_pre_balance_out"@, ValueView::Unsigned(amount_or_zero(e.user_pre_balance_out))),
    ]
}

pub fn amm_swap_columns(e: &AmmSwapEvent) -> (r: Vec<Column>)
    ensures
        columns_view(r@) == amm_swap_columns_spec(*e),
{
    let mut v: Vec<Column> = Vec::new();
    v.push(column("amm", Value::Text(e.amm.clone())));
    v.push(column("user", Value::Text(e.user.clone())));
    v.push(column("amount_in", Value::Unsigned(e.amount_in as u128)));
    v.push(column("amount_out", Value::Unsigned(e.amount_out as u128)));
    v.push(column("mint_in", Value::Text(e.mint_in.clone())));
    v.push(column("mint_out", Value::Text(e.mint_out.clone())));
    v.push(column("direction", Value::Text(e.direction.clone())));
    v.push(column("pool_pc_amount", amount_value(e.pool_pc_amount)));
    v.push(column("pool_coin_amount", amount_value(e.pool_coin_amount)));
    v.push(column("user_pre_balance_in", amount_value(e.user_pre_balance_in)));
    v.push(column("user_pre_balance_out", amount_value(e.user_pre_balance_out)));
    assert(columns_view(v@) =~= amm_swap_columns_spec(*e));
    v
}

pub open spec fn amm_initialize_columns_spec(e: AmmInitializeEvent) -> Seq<(Seq<char>, ValueView)> {
    seq![
        ("amm"@, ValueView::Text(e.amm@)),
        ("user"@, ValueView::Text(e.user@)),
        ("pc_init_amount"@, ValueView::Unsigned(e.pc_init_amount as int)),
        ("coin_init_amount"@, ValueView::Unsigned(e.coin_init_amount as int)),
        ("lp_init_amount"@, ValueView::Unsigned(e.lp_init_amount as int)),
        ("pc_mint"@, ValueView::Text(e.pc_mint@)),
        ("coin_mint"@, ValueView::Text(e.coin_mint@)),
        ("lp_mint"@, ValueView::Text(e.lp_mint@)),
        ("user_pc_pre_balance"@, ValueView::Unsigned(amount_or_zero(e.user_pc_pre_balance))),
        ("user_coin_pre_balance"@, ValueView::Unsigned(amount_or_zero(e.user_coin_pre_balance))),
    ]
}

pub fn amm_initialize_columns(e: &AmmInitializeEvent) -> (r: Vec<Column>)
    ensures
        columns_view(r@) == amm_initialize_columns_spec(*e),
{
    let mut v: Vec<Column> = Vec::new();
    v.push(column("amm", Value::Text(e.amm.clone())));
    v.push(column("user", Value::Text(e.user.clone())));
    v.push(column("pc_init_amount", Value::Unsigned(e.pc_init_amount as u128)));
    v.push(column("coin_init_amount", Value::Unsigned(e.coin_init_amount as u128)));
    v.push(column("lp_init_amount", Value::Unsigned(e.lp_init_amount as u128)));
    v.push(column("pc_mint", Value::Text(e.pc_mint.clone())));
    v.push(column("coin_mint", Value::Text(e.coin_mint.clone())));
    v.push(column("lp_mint", Value::Text(e.lp_mint.clone())));
    v.push(column("user_pc_pre_balance", amount_value(e.user_pc_pre_balance)));
    v.push(column("user_coin_pre_balance", amount_value(e.user_coin_pre_balance)));
    assert(columns_view(v@) =~= amm_initialize_columns_spec(*e));
    v
}

pub open spec fn amm_liquidity_columns_spec(e: AmmLiquidityEvent) -> Seq<(Seq<char>, ValueView)> {
    seq![
        ("amm"@, ValueView::Text(e.amm@)),
        ("user"@, ValueView::Text(e.user@)),
        ("pc_amount"@, ValueView::Unsigned(e.pc_amount as int)),
        ("coin_amount"@, ValueView::Unsigned(e.coin_amount as int)),
        ("pool_pc_amount"@, ValueView::Unsigned(amount_or_zero(e.pool_pc_amount))),
        ("pool_coin_amount"@, ValueView::Unsigned(amount_or_zero(e.pool_coin_amount))),
        ("lp_amount"@, ValueView::Unsigned(e.lp_amount as int)),
        ("pc_mint"@, ValueView::Text(e.pc_mint@)),
        ("coin_mint"@, ValueView::Text(e.coin_mint@)),
        ("lp_mint"@, ValueView::Text(e.lp_mint@)),
        ("user_pc_pre_balance"@, ValueView::Unsigned(amount_or_zero(e.user_pc_pre_balance))),
        ("user_coin_pre_balance"@, ValueView::Unsigned(amount_or_zero(e.user_coin_pre_balance))),
    ]
}

pub fn amm_liquidity_columns(e: &AmmLiquidityEvent) -> (r: Vec<Column>)
    ensures
        columns_view(r@) == amm_liquidity_columns_spec(*e),
{
    let mut v: Vec<Column> = Vec::new();
    v.push(column("amm", Value::Text(e.amm.clone())));
    v.push(column("user", Value::Text(e.user.clone())));
    v.push(column("pc_amount", Value::Unsigned(e.pc_amount as u128)));
    v.push(column("coin_amount", Value::Unsigned(e.coin_amount as u128)));
    v.push(column("pool_pc_amount", amount_value(e.pool_pc_amount)));
    v.push(column("pool_coin_amount", amount_value(e.pool_coin_amount)));
    v.push(column("lp_amount", Value::Unsigned(e.lp_amount as u128)));
    v.push(column("pc_mint", Value::Text(e.pc_mint.clone())));
    v.push(column("coin_mint", Value::Text(e.coin_mint.clone())));
    v.push(column("lp_mint", Value::Text(e.lp_mint.clone())));
    v.push(column("user_pc_pre_balance", amount_value(e.user_pc_pre_balance)));
    v.push(column("user_coin_pre_balance", amount_value(e.user_coin_pre_balance)));
    assert(columns_view(v@) =~= amm_liquidity_columns_spec(*e));
    v
}

pub open spec fn amm_withdraw_pnl_columns_spec(e: AmmWithdrawPnlEvent) -> Seq<(Seq<char>, ValueView)> {
    seq![
        ("amm"@, ValueView::Text(e.amm@)),
        ("user"@, ValueView::Text(e.user@)),
        ("pc_amount"@, ValueView::Unsigned(amount_or_zero(e.pc_amount))),
        ("coin_amount"@, ValueView::Unsigned(amount_or_zero(e.coin_amount))),
        ("pc_mint"@, ValueView::Text(text_or_empty(e.pc_mint))),
        ("coin_mint"@, ValueView::Text(text_or_empty(e.coin_mint))),
    ]
}

pub fn amm_withdraw_pnl_columns(e: &AmmWithdrawPnlEvent) -> (r: Vec<Column>)
    ensures
        columns_view(r@) == amm_withdraw_pnl_columns_spec(*e),
{
    let mut v: Vec<Column> = Vec::new();
    v.push(column("amm", Value::Text(e.amm.clone())));
    v.push(column("user", Value::Text(e.user.clone())));
    v.push(column("pc_amount", amount_value(e.pc_amount)));
    v.push(column("coin_amount", amount_value(e.coin_amount)));
    v.push(column("pc_mint", text_value(&e.pc_mint)));
    v.push(column("coin_mint", text_value(&e.coin_mint)));
    assert(columns_view(v@) =~= amm_withdraw_pnl_columns_spec(*e));
    v
}

pub open spec fn clmm_create_pool_columns_spec(e: ClmmCreatePoolEvent) -> Seq<(Seq<char>, ValueView)> {
    seq![
        ("amm"@, ValueView::Text(e.amm@)),
        ("creator"@, ValueView::Text(e.creator@)),
        ("token0_mint"@, ValueView::Text(e.token0_mint@)),
        ("token1_mint"@, ValueView::Text(e.token1_mint@)),
        ("token0_vault"@, ValueView::Text(e.token0_vault@)),
        ("token1_vault"@, ValueView::Text(e.token1_vault@)),
        ("token0_program"@, ValueView::Text(e.token0_program@)),
        ("token1_program"@, ValueView::Text(e.token1_program@)),
        ("sqrt_price"@, ValueView::Unsigned(le_value(e.sqrt_price@) as int)),
        ("open_time"@, ValueView::Unsigned(e.open_time as int)),
    ]
}

/// The columns of a pool creation; `None` when the price is not 16 bytes.
pub fn clmm_create_pool_columns(e: &ClmmCreatePoolEvent) -> (r: Option<Vec<Column>>)
    ensures
        e.sqrt_price@.len() == 16 ==> r is Some && columns_view(r->Some_0@) == clmm_create_pool_columns_spec(*e),
        e.sqrt_price@.len() != 16 ==> r is None,
{
    let price = match u128_from_le(&e.sqrt_price) {
        Some(p) => p,
        None => return None,
    };
    let mut v: Vec<Column> = Vec::new();
    v.push(column("amm", Value::Text(e.amm.clone())));
    v.push(column("creator", Value::Text(e.creator.clone())));
    v.push(column("token0_mint", Value::Text(e.token0_mint.clone())));
    v.push(column("token1_mint", Value::Text(e.token1_mint.clone())));
    v.push(column("token0_vault", Value::Text(e.token0_vault.clone())));
    v.push(column("token1_vault", Value::Text(e.token1_vault.clone())));
    v.push(column("token0_program", Value::Text(e.token0_program.clone())));
    v.push(column("token1_program", Value::Text(e.token1_program.clone())));
    v.push(column("sqrt_price", Value::Unsigned(price)));
    v.push(column("open_time", Value::Unsigned(e.open_time as u128)));
    assert(columns_view(v@) =~= clmm_create_pool_columns_spec(*e));
    Some(v)
}

pub open spec fn pumpfun_create_columns_spec(e: PumpfunCreateEvent) -> Seq<(Seq<char>, ValueView)> {
    seq![
        ("user"@, ValueView::Text(e.user@)),
        ("name"@, ValueView::Text(e.name@)),
        ("symbol"@, ValueView::Text(e.symbol@)),
        ("uri"@, ValueView::Text(e.uri@)),
        ("mint"@, ValueView::Text(e.mint@)),
        ("bonding_curve"@, ValueView::Text(e.bonding_curve@)),
        ("associated_bonding_curve"@, ValueView::Text(e.associated_bonding_curve@)),
        ("metadata"@, ValueView::Text(e.metadata@)),
    ]
}

pub fn pumpfun_create_columns(e: &PumpfunCreateEvent) -> (r: Vec<Column>)
    ensures
        columns_view(r@) == pumpfun_create_columns_spec(*e),
{
    let mut v: Vec<Column> = Vec::new();
    v.push(column("user", Value::Text(e.user.clone())));
    v.push(column("name", Value::Text(e.name.clone())));
    v.push(column("symbol", Value::Text(e.symbol.clone())));
    v.push(column("uri", Value::Text(e.uri.clone())));
    v.push(column("mint", Value::Text(e.mint.clone())));
    v.push(column("bonding_curve", Value::Text(e.bonding_curve.clone())));
    v.push(column("associated_bonding_curve", Value::Text(e.associated_bonding_curve.clone())));
    v.push(column("metadata", Value::Text(e.metadata.clone())));
    assert(columns_view(v@) =~= pumpfun_create_columns_spec(*e));
    v
}

pub open spec fn pumpfun_initialize_columns_spec(e: PumpfunInitializeEvent) -> Seq<(Seq<char>, ValueView)> {
    seq![
        ("user"@, ValueView::Text(e.user@)),
    ]
}

pub fn pumpfun_initialize_columns(e: &PumpfunInitializeEvent) -> (r: Vec<Column>)
    ensures
        columns_view(r@) == pumpfun_initialize_columns_spec(*e),
{
    let mut v: Vec<Column> = Vec::new();
    v.push(column("user", Value::Text(e.user.clone())));
    assert(columns_view(v@) =~= pumpfun_initialize_columns_spec(*e));
    v
}

pub open spec fn pumpfun_set_params_columns_spec(e: PumpfunSetParamsEvent) -> Seq<(Seq<char>, ValueView)> {
    seq![
        ("user"@, ValueView::Text(e.user@)),
        ("fee_recipient"@, ValueView::Text(e.fee_recipient@)),
        ("initial_virtual_token_reserves"@, ValueView::Unsigned(e.initial_virtual_token_reserves as int)),
        ("initial_virtual_sol_reserves"@, ValueView::Unsigned(e.initial_virtual_sol_reserves as int)),
        ("initial_real_token_reserves"@, ValueView::Unsigned(e.initial_real_token_reserves as int)),
        ("token_total_supply"@, ValueView::Unsigned(e.token_total_supply as int)),
        ("fee_basis_points"@, ValueView::Unsigned(e.fee_basis_points as int)),
    ]
}

pub fn pumpfun_set_params_columns(e: &PumpfunSetParamsEvent) -> (r: Vec<Column>)
    ensures
        columns_view(r@) == pumpfun_set_params_columns_spec(*e),
{
    let mut v: Vec<Column> = Vec::new();
    v.push(column("user", Value::Text(e.user.clone())));
    v.push(column("fee_recipient", Value::Text(e.fee_recipient.clone())));
    v.push(column("initial_virtual_token_reserves", Value::Unsigned(e.initial_virtual_token_reserves as u128)));
    v.push(column("initial_virtual_sol_reserves", Value::Unsigned(e.initial_virtual_sol_reserves as u128)));
    v.push(column("initial_real_token_reserves", Value::Unsigned(e.initial_real_token_reserves as u128)));
    v.push(column("token_total_supply", Value::Unsigned(e.token_total_supply as u128)));
    v.push(column("fee_basis_points", Value::Unsigned(e.fee_basis_points as u128)));
    assert(columns_view(v@) =~= pumpfun_set_params_columns_spec(*e));
    v
}

pub open spec fn pumpfun_swap_columns_spec(e: PumpfunSwapEvent) -> Seq<(Seq<char>, ValueView)> {
    seq![
        ("user"@, ValueView::Text(e.user@)),
        ("mint"@, ValueView::Text(e.mint@)),
        ("bonding_curve"@, ValueView::Text(e.bonding_curve@)),
        ("token_amount"@, ValueView::Unsigned(e.token_amount as int)),
        ("direction"@, ValueView::Text(e.direction@)),
        ("sol_amount"@, ValueView::Unsigned(amount_or_zero(e.sol_amount))),
        ("virtual_sol_reserves"@, ValueView::Unsigned(amount_or_zero(e.virtual_sol_reserves))),
        ("virtual_token_reserves"@, ValueView::Unsigned(amount_or_zero(e.virtual_token_reserves))),
        ("real_sol_reserves"@, ValueView::Unsigned(amount_or_zero(e.real_sol_reserves))),
        ("real_token_reserves"@, ValueView::Unsigned(amount_or_zero(e.real_token_reserves))),
    ]
}

pub fn pumpfun_swap_columns(e: &PumpfunSwapEvent) -> (r: Vec<Column>)
    ensures
        columns_view(r@) == pumpfun_swap_columns_spec(*e),
{
    let mut v: Vec<Column> = Vec::new();
    v.push(column("user", Value::Text(e.user.clone())));
    v.push(column("mint", Value::Text(e.mint.clone())));
    v.push(column("bonding_curve", Value::Text(e.bonding_curve.clone())));
    v.push(column("token_amount", Value::Unsigned(e.token_amount as u128)));
    v.push(column("direction", Value::Text(e.direction.clone())));
    v.push(column("sol_amount", amount_value(e.sol_amount)));
    v.push(column("virtual_sol_reserves", amount_value(e.virtual_sol_reserves)));
    v.push(column("virtual_token_reserves", amount_value(e.virtual_token_reserves)));
    v.push(column("real_sol_reserves", amount_value(e.real_sol_reserves)));
    v.push(column("real_token_reserves", amount_value(e.real_token_reserves)));
    assert(columns_view(v@) =~= pumpfun_swap_columns_spec(*e));
    v
}

pub open spec fn pumpfun_withdraw_columns_spec(e: PumpfunWithdrawEvent) -> Seq<(Seq<char>, ValueView)> {
    seq![
        ("mint"@, ValueView::Text(e.mint@)),
    ]
}

pub fn pumpfun_withdraw_columns(e: &PumpfunWithdrawEvent) -> (r: Vec<Column>)
    ensures
        columns_view(r@) == pumpfun_withdraw_columns_spec(*e),
{
    let mut v: Vec<Column> = Vec::new();
    v.push(column("mint", Value::Text(e.mint.clone())));
    assert(columns_view(v@) =~= pumpfun_withdraw_columns_spec(*e));
    v
}

pub open spec fn kind_spec(e: ProtocolEvent) -> EventKind {
    match e {
        ProtocolEvent::AmmSwap(_) => EventKind::AmmSwap,
        ProtocolEvent::AmmInitialize(_) => EventKind::AmmInitialize,
        ProtocolEvent::AmmDeposit(_) => EventKind::AmmDeposit,
        ProtocolEvent::AmmWithdraw(_) => EventKind::AmmWithdraw,
        ProtocolEvent::AmmWithdrawPnl(_) => EventKind::AmmWithdrawPnl,
        ProtocolEvent::ClmmCreatePool(_) => EventKind::ClmmCreatePool,
        ProtocolEvent::PumpfunCreate(_) => EventKind::PumpfunCreate,
        ProtocolEvent::PumpfunInitialize(_) => EventKind::PumpfunInitialize,
        ProtocolEvent::PumpfunSetParams(_) => EventKind::PumpfunSetParams,
        ProtocolEvent::PumpfunSwap(_) => EventKind::PumpfunSwap,
        ProtocolEvent::PumpfunWithdraw(_) => EventKind::PumpfunWithdraw,
    }
}

/// The kind of an event.
pub fn kind_of(e: &ProtocolEvent) -> (r: EventKind)
    ensures
        r == kind_spec(*e),
{
    match e {
        ProtocolEvent::AmmSwap(_) => EventKind::AmmSwap,
        ProtocolEvent::AmmInitialize(_) => EventKind::AmmInitialize,
        ProtocolEvent::AmmDeposit(_) => EventKind::AmmDeposit,
        ProtocolEvent::AmmWithdraw(_) => EventKind::AmmWithdraw,
        ProtocolEvent::AmmWithdrawPnl(_) => EventKind::AmmWithdrawPnl,
        ProtocolEvent::ClmmCreatePool(_) => EventKind::ClmmCreatePool,
        ProtocolEvent::PumpfunCreate(_) => EventKind::PumpfunCreate,
        ProtocolEvent::PumpfunInitialize(_) => EventKind::PumpfunInitialize,
        ProtocolEvent::PumpfunSetParams(_) => EventKind::PumpfunSetParams,
        ProtocolEvent::PumpfunSwap(_) => EventKind::PumpfunSwap,
        ProtocolEvent::PumpfunWithdraw(_) => EventKind::PumpfunWithdraw,
    }
}

/// The columns an event fills; `None` when its payload cannot be written.
pub open spec fn event_columns_spec(e: ProtocolEvent) -> Option<Seq<(Seq<char>, ValueView)>> {
    match e {
        ProtocolEvent::AmmSwap(x) => Some(amm_swap_columns_spec(x)),
        ProtocolEvent::AmmInitialize(x) => Some(amm_initialize_columns_spec(x)),
        ProtocolEvent::AmmDeposit(x) => Some(amm_liquidity_columns_spec(x)),
        ProtocolEvent::AmmWithdraw(x) => Some(amm_liquidity_columns_spec(x)),
        ProtocolEvent::AmmWithdrawPnl(x) => Some(amm_withdraw_pnl_columns_spec(x)),
        ProtocolEvent::ClmmCreatePool(x) => if x.sqrt_price@.len() == 16 {
            Some(clmm_create_pool_columns_spec(x))
        } else {
            None
        },
        ProtocolEvent::PumpfunCreate(x) => Some(pumpfun_create_columns_spec(x)),
        ProtocolEvent::PumpfunInitialize(x) => Some(pumpfun_initialize_columns_spec(x)),
        ProtocolEvent::PumpfunSetParams(x) => Some(pumpfun_set_params_columns_spec(x)),
        ProtocolEvent::PumpfunSwap(x) => Some(pumpfun_swap_columns_spec(x)),
        ProtocolEvent::PumpfunWithdraw(x) => Some(pumpfun_withdraw_columns_spec(x)),
    }
}

/// The columns an event fills in its table.
pub fn event_columns(e: &ProtocolEvent) -> (r: Option<Vec<Column>>)
    ensures
        match event_columns_spec(*e) {
            Some(c) => r is Some && columns_view(r->Some_0@) == c,
            None => r is None,
        },
{
    match e {
        ProtocolEvent::AmmSwap(x) => Some(amm_swap_columns(x)),
        ProtocolEvent::AmmInitialize(x) => Some(amm_initialize_columns(x)),
        ProtocolEvent::AmmDeposit(x) => Some(amm_liquidity_columns(x)),
        ProtocolEvent::AmmWithdraw(x) => Some(amm_liquidity_columns(x)),
        ProtocolEvent::AmmWithdrawPnl(x) => Some(amm_withdraw_pnl_columns(x)),
        ProtocolEvent::ClmmCreatePool(x) => clmm_create_pool_columns(x),
        ProtocolEvent::PumpfunCreate(x) => Some(pumpfun_create_columns(x)),
        ProtocolEvent::PumpfunInitialize(x) => Some(pumpfun_initialize_columns(x)),
        ProtocolEvent::PumpfunSetParams(x) => Some(pumpfun_set_params_columns(x)),
        ProtocolEvent::PumpfunSwap(x) => Some(pumpfun_swap_columns(x)),
        ProtocolEvent::PumpfunWithdraw(x) => Some(pumpfun_withdraw_columns(x)),
    }
}

} // verus!
