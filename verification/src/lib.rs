//! De-anonymization heuristics for a fixed-denomination mixing protocol:
//! decode exported call records into canonical deposit and withdraw events,
//! reconstruct withdrawals from raw value transfers, and correlate
//! addresses whose deposit and withdrawal behavior gives them away.

pub mod abi;
pub mod analyze;
pub mod data;
pub mod data_check;
pub mod grouping;
pub mod helpers;
pub mod parsing;
pub mod patterns;
pub mod prepare;
pub mod record;
pub mod report;
pub mod types;

pub use abi::DecodedCall;
pub use abi::DirectDeposit;
pub use abi::DirectWithdraw;
pub use abi::PoolCall;
pub use abi::RouterCall;
pub use abi::RouterDeposit;
pub use abi::RouterWithdraw;
pub use abi::decode;
pub use abi::parse_pool_call;
pub use abi::parse_router_call;
pub use abi::DIRECT_DEPOSIT_SELECTOR;
pub use abi::DIRECT_WITHDRAW_SELECTOR;
pub use abi::ROUTER_DEPOSIT_SELECTOR;
pub use abi::ROUTER_WITHDRAW_SELECTOR;
pub use analyze::AddressMatch;
pub use analyze::earlier;
pub use analyze::get_address_matches;
pub use analyze::match_patterns;
pub use data::Deposit;
pub use data::ESTransaction;
pub use data::InBlock;
pub use data::InPool;
pub use data::Pool;
pub use data::Withdraw;
pub use data::pool_by_addr;
pub use data::router_address;
pub use data::TORNADO_CASH_0_1ETH;
pub use data::TORNADO_CASH_100ETH;
pub use data::TORNADO_CASH_10ETH;
pub use data::TORNADO_CASH_1ETH;
pub use data::TORNADO_CASH_ROUTER;
pub use data_check::check_sum_per_deposit;
pub use data_check::check_sum_per_withdraw;
pub use data_check::ONE_ETHER_WEI;
pub use grouping::GroupedWithdraw;
pub use grouping::GroupingError;
pub use grouping::Transfer;
pub use grouping::canonical_withdraws;
pub use grouping::group_fee_withdraws;
pub use helpers::collect_pools;
pub use parsing::hex_decode_bytes;
pub use parsing::parse_address;
pub use parsing::parse_txhash;
pub use parsing::parse_u128;
pub use patterns::DepositWithdrawPattern;
pub use patterns::pattern_is_interesting;
pub use patterns::pattern_of;
pub use prepare::pool_call;
pub use prepare::router_call;
pub use prepare::split_deposit_withdraw;
pub use record::ESNormalTransaction;
pub use record::ESNormalTransactionStrings;
pub use report::PoolMatches;
pub use report::address_matches;
pub use types::Address;
pub use types::TxHash;
pub use types::Uint256;
