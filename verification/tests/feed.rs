use cosmwasm_std::MemoryStorage;
use cosmwasm_std::Storage;
use oracle::contract::authorize;
use oracle::contract::execute;
use oracle::contract::instantiate;
use oracle::contract::query;
use oracle::contract::query_config;
use oracle::contract::query_current_batch_prices;
use oracle::contract::query_current_price;
use oracle::contract::query_old_prices;
use oracle::contract::record_price;
use oracle::contract::storage_outcome;
use oracle::contract::try_set_batch_price;
use oracle::contract::try_set_single_price;
use oracle::contract::try_update_config;
use oracle::error::ContractError;
use oracle::msg::ExecuteMsg;
use oracle::msg::GetConfigResponse;
use oracle::msg::GetCurrentBatchPricesResponse;
use oracle::msg::GetCurrentPriceResponse;
use oracle::msg::GetOldPricesResponse;
use oracle::msg::InstantiateMsg;
use oracle::msg::PriceMsg;
use oracle::msg::PriceResponseMsg;
use oracle::msg::QueryMsg;
use oracle::msg::QueryResponse;
use oracle::state::Config;
use oracle::state::Price;
use oracle::store::key_part_fits;
use oracle::store::MAX_KEY_PART;

const USER: &str = "juno10c3slrqx3369mfsr9670au22zvq082jaej8ve4";
const STRANGER: &str = "juno1stranger";

fn proper_instantiate() -> MemoryStorage {
    instantiate(InstantiateMsg { owner: USER.to_string() }).unwrap()
}

fn pair(base: &str, quote: &str) -> PriceResponseMsg {
    PriceResponseMsg { base_asset: base.to_string(), quote_asset: quote.to_string() }
}

fn entry(base: &str, quote: &str, amount: u128) -> PriceMsg {
    PriceMsg { base_asset: base.to_string(), quote_asset: quote.to_string(), amount }
}

fn current(store: &MemoryStorage, base: &str, quote: &str) -> Result<GetCurrentPriceResponse, ContractError> {
    query_current_price(store, base.to_string(), quote.to_string())
}

fn history(store: &MemoryStorage, base: &str, quote: &str) -> Vec<(u64, Price)> {
    query_old_prices(store, base.to_string(), quote.to_string()).unwrap().prices
}

fn set(store: &mut MemoryStorage, who: &str, now: u64, base: &str, quote: &str, amount: u128) -> Result<(), ContractError> {
    try_set_single_price(store, who, now, base.to_string(), quote.to_string(), amount)
}

#[test]
fn instantiate_and_add_single_price() {
    let mut store = proper_instantiate();

    let msg = ExecuteMsg::SetSinglePrice {
        base_asset: "base".to_string(),
        quote_asset: "quote".to_string(),
        amount: 100,
    };
    execute(&mut store, USER, 1_571_797_419, msg).unwrap();

    let res = current(&store, "base", "quote").unwrap();
    assert_eq!(res.price.amount, 100);

    let msg = ExecuteMsg::SetSinglePrice {
        base_asset: "base".to_string(),
        quote_asset: "quote".to_string(),
        amount: 1000,
    };
    execute(&mut store, USER, 1_571_797_424, msg).unwrap();

    let res = query_old_prices(&store, "base".to_string(), "quote".to_string()).unwrap();
    assert_eq!(res.prices[0].1.amount, 100);
    let res = current(&store, "base", "quote").unwrap();
    assert_eq!(res.price.amount, 1000);
}

#[test]
fn instantiate_and_add_batch_price() {
    let mut store = proper_instantiate();

    let msg = ExecuteMsg::SetBatchPrice {
        prices: vec![entry("base", "quote", 100), entry("base2", "quote2", 200)],
    };
    execute(&mut store, USER, 1_571_797_419, msg).unwrap();

    let res = current(&store, "base", "quote").unwrap();
    assert_eq!(res.price.amount, 100);

    let res = current(&store, "base2", "quote2").unwrap();
    assert_eq!(res.price.amount, 200);

    let asked = vec![pair("base", "quote"), pair("base2", "quote2")];
    let res = query_current_batch_prices(&store, asked.clone()).unwrap();
    assert_eq!(res.prices.len(), 2);
    assert_eq!((asked[0].base_asset.clone(), asked[0].quote_asset.clone()), ("base".to_string(), "quote".to_string()));
    assert_eq!(res.prices[0].amount, 100);
    assert_eq!((asked[1].base_asset.clone(), asked[1].quote_asset.clone()), ("base2".to_string(), "quote2".to_string()));
    assert_eq!(res.prices[1].amount, 200);
}

#[test]
fn instantiate_sets_the_owner_and_nothing_else() {
    let store = proper_instantiate();
    assert_eq!(query_config(&store), Ok(GetConfigResponse { owner: USER.to_string() }));
    assert_eq!(current(&store, "base", "quote"), Err(ContractError::NotFound));
    assert_eq!(history(&store, "base", "quote"), vec![]);
    assert_eq!(Config { owner: USER.to_string() }.owner, query_config(&store).unwrap().owner);
}

#[test]
fn feed_without_owner_has_no_config() {
    let mut store = MemoryStorage::new();
    assert_eq!(query_config(&store), Err(ContractError::NotFound));
    assert_eq!(query(&store, QueryMsg::GetConfig {}), Err(ContractError::NotFound));
    assert_eq!(set(&mut store, USER, 1, "base", "quote", 1), Err(ContractError::Unauthorized));
    assert_eq!(try_update_config(&mut store, USER, USER.to_string()), Err(ContractError::Unauthorized));
    assert_eq!(store.range(None, None, cosmwasm_std::Order::Ascending).count(), 0);
}

#[test]
fn authorize_knows_only_the_owner() {
    let store = proper_instantiate();
    assert_eq!(authorize(&store, USER), Ok(()));
    assert_eq!(authorize(&store, STRANGER), Err(ContractError::Unauthorized));
    assert_eq!(authorize(&store, ""), Err(ContractError::Unauthorized));
    assert_eq!(authorize(&MemoryStorage::new(), USER), Err(ContractError::Unauthorized));
}

#[test]
fn stranger_changes_nothing() {
    let mut store = proper_instantiate();
    set(&mut store, USER, 5, "base", "quote", 100).unwrap();
    set(&mut store, USER, 6, "base", "quote", 110).unwrap();
    let before: Vec<(Vec<u8>, Vec<u8>)> = store.range(None, None, cosmwasm_std::Order::Ascending).collect();

    assert_eq!(set(&mut store, STRANGER, 7, "base", "quote", 1), Err(ContractError::Unauthorized));
    assert_eq!(
        try_set_batch_price(&mut store, STRANGER, 7, vec![entry("base", "quote", 2), entry("a", "b", 3)]),
        Err(ContractError::Unauthorized)
    );
    assert_eq!(
        try_update_config(&mut store, STRANGER, STRANGER.to_string()),
        Err(ContractError::Unauthorized)
    );
    assert_eq!(
        execute(&mut store, STRANGER, 7, ExecuteMsg::UpdateConfig { owner: STRANGER.to_string() }),
        Err(ContractError::Unauthorized)
    );

    let after: Vec<(Vec<u8>, Vec<u8>)> = store.range(None, None, cosmwasm_std::Order::Ascending).collect();
    assert_eq!(before, after);
    assert_eq!(query_config(&store).unwrap().owner, USER);
    assert_eq!(current(&store, "base", "quote").unwrap().price, Price { amount: 110, timestamp: 6 });
    assert_eq!(current(&store, "a", "b"), Err(ContractError::NotFound));
    assert_eq!(history(&store, "base", "quote"), vec![(5, Price { amount: 100, timestamp: 5 })]);
}

#[test]
fn update_config_hands_the_feed_over() {
    let mut store = proper_instantiate();
    assert_eq!(try_update_config(&mut store, USER, STRANGER.to_string()), Ok(()));
    assert_eq!(query_config(&store).unwrap().owner, STRANGER);
    assert_eq!(set(&mut store, USER, 1, "base", "quote", 1), Err(ContractError::Unauthorized));
    assert_eq!(set(&mut store, STRANGER, 1, "base", "quote", 1), Ok(()));
    assert_eq!(current(&store, "base", "quote").unwrap().price, Price { amount: 1, timestamp: 1 });
}

#[test]
fn overwrite_archives_the_displaced_price() {
    let mut store = proper_instantiate();
    set(&mut store, USER, 10, "base", "quote", 100).unwrap();
    set(&mut store, USER, 20, "base", "quote", 200).unwrap();
    assert_eq!(
        current(&store, "base", "quote"),
        Ok(GetCurrentPriceResponse { price: Price { amount: 200, timestamp: 20 } })
    );
    assert_eq!(history(&store, "base", "quote"), vec![(10, Price { amount: 100, timestamp: 10 })]);
}

#[test]
fn first_write_has_no_archive() {
    let mut store = proper_instantiate();
    set(&mut store, USER, 10, "base", "quote", 100).unwrap();
    assert_eq!(history(&store, "base", "quote"), vec![]);
    assert_eq!(
        query_old_prices(&store, "base".to_string(), "quote".to_string()),
        Ok(GetOldPricesResponse { prices: vec![] })
    );
    assert_eq!(current(&store, "base", "quote").unwrap().price, Price { amount: 100, timestamp: 10 });
}

#[test]
fn batch_prices_each_pair_in_request_order() {
    let mut store = proper_instantiate();
    try_set_batch_price(&mut store, USER, 42, vec![entry("A", "x", 100), entry("B", "x", 200)]).unwrap();
    assert_eq!(current(&store, "A", "x").unwrap().price, Price { amount: 100, timestamp: 42 });
    assert_eq!(current(&store, "B", "x").unwrap().price, Price { amount: 200, timestamp: 42 });
    assert_eq!(
        query_current_batch_prices(&store, vec![pair("A", "x"), pair("B", "x")]),
        Ok(GetCurrentBatchPricesResponse {
            prices: vec![Price { amount: 100, timestamp: 42 }, Price { amount: 200, timestamp: 42 }],
        })
    );
    assert_eq!(
        query_current_batch_prices(&store, vec![pair("B", "x"), pair("A", "x"), pair("B", "x")])
            .unwrap()
            .prices
            .iter()
            .map(|p| p.amount)
            .collect::<Vec<u128>>(),
        vec![200, 100, 200]
    );
    assert_eq!(
        query_current_batch_prices(&store, vec![]),
        Ok(GetCurrentBatchPricesResponse { prices: vec![] })
    );
    assert_eq!(history(&store, "A", "x"), vec![]);
}

#[test]
fn missing_pair_query_fails() {
    let mut store = proper_instantiate();
    set(&mut store, USER, 1, "known", "quote", 5).unwrap();
    assert_eq!(current(&store, "unknown", "quote"), Err(ContractError::NotFound));
    assert_eq!(current(&store, "quote", "known"), Err(ContractError::NotFound));
    assert_eq!(current(&store, "Known", "quote"), Err(ContractError::NotFound));
    assert_eq!(
        query_current_batch_prices(&store, vec![pair("known", "quote"), pair("unknown", "quote")]),
        Err(ContractError::NotFound)
    );
    assert_eq!(
        query_current_batch_prices(&store, vec![pair("unknown", "quote"), pair("known", "quote")]),
        Err(ContractError::NotFound)
    );
}

#[test]
fn history_ascends_by_timestamp() {
    let mut store = proper_instantiate();
    set(&mut store, USER, 9, "base", "quote", 1).unwrap();
    set(&mut store, USER, 10, "base", "quote", 2).unwrap();
    set(&mut store, USER, 11, "base", "quote", 3).unwrap();
    assert_eq!(
        history(&store, "base", "quote"),
        vec![(9, Price { amount: 1, timestamp: 9 }), (10, Price { amount: 2, timestamp: 10 })]
    );
    assert_eq!(current(&store, "base", "quote").unwrap().price, Price { amount: 3, timestamp: 11 });
}

#[test]
fn history_is_kept_by_pair() {
    let mut store = proper_instantiate();
    set(&mut store, USER, 300, "a", "bc", 1).unwrap();
    set(&mut store, USER, 301, "ab", "c", 2).unwrap();
    set(&mut store, USER, 70_000, "a", "bc", 3).unwrap();
    set(&mut store, USER, 70_001, "ab", "c", 4).unwrap();
    set(&mut store, USER, u64::MAX, "a", "bc", u128::MAX).unwrap();
    assert_eq!(
        history(&store, "a", "bc"),
        vec![(300, Price { amount: 1, timestamp: 300 }), (70_000, Price { amount: 3, timestamp: 70_000 })]
    );
    assert_eq!(history(&store, "ab", "c"), vec![(301, Price { amount: 2, timestamp: 301 })]);
    assert_eq!(history(&store, "a", "b"), vec![]);
    assert_eq!(
        current(&store, "a", "bc").unwrap().price,
        Price { amount: u128::MAX, timestamp: u64::MAX }
    );
}

#[test]
fn batch_with_one_pair_twice_is_sequential() {
    let mut store = proper_instantiate();
    set(&mut store, USER, 7, "base", "quote", 50).unwrap();
    try_set_batch_price(&mut store, USER, 8, vec![entry("base", "quote", 100), entry("base", "quote", 200)])
        .unwrap();
    assert_eq!(current(&store, "base", "quote").unwrap().price, Price { amount: 200, timestamp: 8 });
    assert_eq!(
        history(&store, "base", "quote"),
        vec![(7, Price { amount: 50, timestamp: 7 }), (8, Price { amount: 100, timestamp: 8 })]
    );
}

#[test]
fn same_timestamp_overwrites_the_archived_price() {
    let mut store = proper_instantiate();
    set(&mut store, USER, 7, "base", "quote", 50).unwrap();
    try_set_batch_price(&mut store, USER, 7, vec![entry("base", "quote", 100), entry("base", "quote", 200)])
        .unwrap();
    assert_eq!(current(&store, "base", "quote").unwrap().price, Price { amount: 200, timestamp: 7 });
    assert_eq!(history(&store, "base", "quote"), vec![(7, Price { amount: 100, timestamp: 7 })]);
}

#[test]
fn empty_batch_changes_nothing() {
    let mut store = proper_instantiate();
    set(&mut store, USER, 7, "base", "quote", 50).unwrap();
    assert_eq!(try_set_batch_price(&mut store, USER, 8, vec![]), Ok(()));
    assert_eq!(try_set_batch_price(&mut store, STRANGER, 8, vec![]), Err(ContractError::Unauthorized));
    assert_eq!(current(&store, "base", "quote").unwrap().price, Price { amount: 50, timestamp: 7 });
    assert_eq!(history(&store, "base", "quote"), vec![]);
}

#[test]
fn record_price_does_not_ask_who_calls() {
    let mut store = MemoryStorage::new();
    assert_eq!(record_price(&mut store, "base", "quote", 5, 1), Ok(()));
    assert_eq!(record_price(&mut store, "base", "quote", 6, 2), Ok(()));
    assert_eq!(current(&store, "base", "quote").unwrap().price, Price { amount: 6, timestamp: 2 });
    assert_eq!(history(&store, "base", "quote"), vec![(1, Price { amount: 5, timestamp: 1 })]);
}

#[test]
fn query_answers_each_question() {
    let mut store = proper_instantiate();
    set(&mut store, USER, 1, "base", "quote", 5).unwrap();
    set(&mut store, USER, 2, "base", "quote", 6).unwrap();
    assert_eq!(
        query(&store, QueryMsg::GetConfig {}),
        Ok(QueryResponse::Config(GetConfigResponse { owner: USER.to_string() }))
    );
    assert_eq!(
        query(&store, QueryMsg::GetCurrentPrice { base_asset: "base".to_string(), quote_asset: "quote".to_string() }),
        Ok(QueryResponse::CurrentPrice(GetCurrentPriceResponse { price: Price { amount: 6, timestamp: 2 } }))
    );
    assert_eq!(
        query(&store, QueryMsg::GetCurrentPrice { base_asset: "quote".to_string(), quote_asset: "base".to_string() }),
        Err(ContractError::NotFound)
    );
    assert_eq!(
        query(&store, QueryMsg::GetCurrentBatchPrices { prices: vec![pair("base", "quote")] }),
        Ok(QueryResponse::CurrentBatchPrices(GetCurrentBatchPricesResponse {
            prices: vec![Price { amount: 6, timestamp: 2 }],
        }))
    );
    assert_eq!(
        query(&store, QueryMsg::GetCurrentBatchPrices { prices: vec![pair("base", "quote"), pair("no", "ne")] }),
        Err(ContractError::NotFound)
    );
    assert_eq!(
        query(&store, QueryMsg::GetOldPrices { base_asset: "base".to_string(), quote_asset: "quote".to_string() }),
        Ok(QueryResponse::OldPrices(GetOldPricesResponse { prices: vec![(1, Price { amount: 5, timestamp: 1 })] }))
    );
}

#[test]
fn execute_carries_out_each_command() {
    let mut store = proper_instantiate();
    assert_eq!(
        execute(
            &mut store,
            USER,
            3,
            ExecuteMsg::SetBatchPrice { prices: vec![entry("a", "b", 1), entry("c", "d", 2)] }
        ),
        Ok(())
    );
    assert_eq!(
        execute(
            &mut store,
            USER,
            4,
            ExecuteMsg::SetSinglePrice { base_asset: "a".to_string(), quote_asset: "b".to_string(), amount: 9 }
        ),
        Ok(())
    );
    assert_eq!(execute(&mut store, USER, 5, ExecuteMsg::UpdateConfig { owner: STRANGER.to_string() }), Ok(()));
    assert_eq!(query_config(&store).unwrap().owner, STRANGER);
    assert_eq!(current(&store, "a", "b").unwrap().price, Price { amount: 9, timestamp: 4 });
    assert_eq!(current(&store, "c", "d").unwrap().price, Price { amount: 2, timestamp: 3 });
    assert_eq!(history(&store, "a", "b"), vec![(3, Price { amount: 1, timestamp: 3 })]);
}

#[test]
fn unreadable_archive_is_a_storage_failure() {
    let mut store = proper_instantiate();
    let mut key: Vec<u8> = vec![0, 10];
    key.extend_from_slice(b"old_prices");
    key.extend_from_slice(&[0, 4]);
    key.extend_from_slice(b"base");
    key.extend_from_slice(&[0, 5]);
    key.extend_from_slice(b"quote");
    key.extend_from_slice(&7u64.to_be_bytes());
    store.set(&key, b"not a price");
    assert_eq!(
        query_old_prices(&store, "base".to_string(), "quote".to_string()),
        Err(ContractError::Storage)
    );
    assert_eq!(history(&store, "other", "quote"), vec![]);
}

#[test]
fn storage_outcome_maps_the_error() {
    assert_eq!(storage_outcome(Ok(())), Ok(()));
    assert_eq!(
        storage_outcome(Err(cosmwasm_std::StdError::generic_err("disk"))),
        Err(ContractError::Storage)
    );
}

#[test]
fn error_messages() {
    assert_eq!(ContractError::Unauthorized.message(), "Unauthorized");
    assert_eq!(ContractError::NotFound.message(), "Price not found");
    assert_eq!(ContractError::Storage.message(), "Storage failure");
}

#[test]
fn key_parts_have_a_longest_length() {
    assert_eq!(MAX_KEY_PART, 65_535);
    assert!(key_part_fits(""));
    assert!(key_part_fits("base"));
    assert!(key_part_fits(&"a".repeat(65_535)));
    assert!(!key_part_fits(&"a".repeat(65_536)));
    assert!(!key_part_fits(&"\u{e9}".repeat(32_768)));
    assert!(key_part_fits(&"\u{e9}".repeat(32_767)));
}

#[test]
fn longest_key_parts_are_stored() {
    let mut store = proper_instantiate();
    let base = "b".repeat(65_535);
    let quote = "q".repeat(65_535);
    set(&mut store, USER, 1, &base, &quote, 1).unwrap();
    set(&mut store, USER, 2, &base, &quote, 2).unwrap();
    assert_eq!(current(&store, &base, &quote).unwrap().price, Price { amount: 2, timestamp: 2 });
    assert_eq!(history(&store, &base, &quote), vec![(1, Price { amount: 1, timestamp: 1 })]);
}

#[test]
fn current_price_lookup_takes_any_quote() {
    let mut store = proper_instantiate();
    set(&mut store, USER, 1, "base", "quote", 5).unwrap();
    let long_quote = "q".repeat(70_000);
    assert_eq!(current(&store, "base", &long_quote), Err(ContractError::NotFound));
    assert_eq!(
        query_current_batch_prices(&store, vec![pair("base", "quote"), pair("base", &long_quote)]),
        Err(ContractError::NotFound)
    );
    assert_eq!(current(&store, "base", "").unwrap_err(), ContractError::NotFound);
    set(&mut store, USER, 2, "", "", 6).unwrap();
    set(&mut store, USER, 3, "", "", 7).unwrap();
    assert_eq!(current(&store, "", "").unwrap().price, Price { amount: 7, timestamp: 3 });
    assert_eq!(history(&store, "", ""), vec![(2, Price { amount: 6, timestamp: 2 })]);
}

#[test]
fn owner_is_kept_letter_for_letter() {
    let names = [
        "",
        " ",
        "o\"wn\\er",
        "line\nbreak\ttab\rreturn",
        "\u{0}\u{1}\u{1f}\u{7f}",
        "\u{8}\u{c}/",
        "\u{e9}\u{4e2d}\u{1F600}\u{10FFFF}",
        "\\u0041",
    ];
    for name in names {
        let mut store = instantiate(InstantiateMsg { owner: name.to_string() }).unwrap();
        assert_eq!(query_config(&store).unwrap().owner, name);
        assert_eq!(authorize(&store, name), Ok(()));
        assert_eq!(try_update_config(&mut store, name, USER.to_string()), Ok(()));
        assert_eq!(try_update_config(&mut store, USER, name.to_string()), Ok(()));
        assert_eq!(query_config(&store).unwrap().owner, name);
    }
}

#[test]
fn pairs_are_compared_exactly() {
    let mut store = proper_instantiate();
    let names = ["\u{0}", "a\u{0}", "\u{e9}", "e\u{301}", "A", "a", " a", "\u{1F600}"];
    let mut amount: u128 = 1;
    for base in names {
        for quote in names {
            set(&mut store, USER, 1, base, quote, amount).unwrap();
            set(&mut store, USER, 2, base, quote, amount + 1000).unwrap();
            amount += 1;
        }
    }
    let mut amount: u128 = 1;
    for base in names {
        for quote in names {
            assert_eq!(current(&store, base, quote).unwrap().price, Price { amount: amount + 1000, timestamp: 2 });
            assert_eq!(history(&store, base, quote), vec![(1, Price { amount, timestamp: 1 })]);
            amount += 1;
        }
    }
}

fn spoil_current(store: &mut MemoryStorage, base: &str, quote: &str) {
    let mut key: Vec<u8> = vec![0, 14];
    key.extend_from_slice(b"current_prices");
    key.extend_from_slice(&[(base.len() / 256) as u8, (base.len() % 256) as u8]);
    key.extend_from_slice(base.as_bytes());
    key.extend_from_slice(quote.as_bytes());
    store.set(&key, b"not a price");
}

fn records(store: &MemoryStorage) -> Vec<(Vec<u8>, Vec<u8>)> {
    store.range(None, None, cosmwasm_std::Order::Ascending).collect()
}

#[test]
fn unreadable_current_price_stops_the_write() {
    let mut store = proper_instantiate();
    set(&mut store, USER, 1, "other", "quote", 5).unwrap();
    spoil_current(&mut store, "base", "quote");
    let before = records(&store);

    assert_eq!(set(&mut store, USER, 2, "base", "quote", 100), Err(ContractError::Storage));
    assert_eq!(record_price(&mut store, "base", "quote", 100, 2), Err(ContractError::Storage));
    assert_eq!(
        execute(
            &mut store,
            USER,
            2,
            ExecuteMsg::SetSinglePrice { base_asset: "base".to_string(), quote_asset: "quote".to_string(), amount: 1 }
        ),
        Err(ContractError::Storage)
    );
    assert_eq!(set(&mut store, STRANGER, 2, "base", "quote", 100), Err(ContractError::Unauthorized));
    assert_eq!(records(&store), before);

    assert_eq!(current(&store, "base", "quote"), Err(ContractError::Storage));
    assert_eq!(
        query(&store, QueryMsg::GetCurrentPrice { base_asset: "base".to_string(), quote_asset: "quote".to_string() }),
        Err(ContractError::Storage)
    );
    assert_eq!(history(&store, "base", "quote"), vec![]);
    assert_eq!(set(&mut store, USER, 3, "other", "quote", 6), Ok(()));
    assert_eq!(current(&store, "other", "quote").unwrap().price, Price { amount: 6, timestamp: 3 });
}

#[test]
fn unreadable_current_price_stops_the_whole_batch() {
    let mut store = proper_instantiate();
    set(&mut store, USER, 1, "a", "x", 5).unwrap();
    spoil_current(&mut store, "b", "x");
    let before = records(&store);
    assert_eq!(
        try_set_batch_price(&mut store, USER, 2, vec![entry("a", "x", 6), entry("b", "x", 7), entry("c", "x", 8)]),
        Err(ContractError::Storage)
    );
    assert_eq!(records(&store), before);
    assert_eq!(current(&store, "a", "x").unwrap().price, Price { amount: 5, timestamp: 1 });
    assert_eq!(current(&store, "c", "x"), Err(ContractError::NotFound));
    assert_eq!(
        try_set_batch_price(&mut store, USER, 2, vec![entry("a", "x", 6), entry("c", "x", 8)]),
        Ok(())
    );
    assert_eq!(current(&store, "a", "x").unwrap().price, Price { amount: 6, timestamp: 2 });
    assert_eq!(current(&store, "c", "x").unwrap().price, Price { amount: 8, timestamp: 2 });
    assert_eq!(history(&store, "a", "x"), vec![(1, Price { amount: 5, timestamp: 1 })]);
}

#[test]
fn batch_query_reports_the_first_failure() {
    let mut store = proper_instantiate();
    set(&mut store, USER, 1, "a", "x", 5).unwrap();
    spoil_current(&mut store, "b", "x");
    assert_eq!(
        query_current_batch_prices(&store, vec![pair("a", "x"), pair("b", "x"), pair("c", "x")]),
        Err(ContractError::Storage)
    );
    assert_eq!(
        query_current_batch_prices(&store, vec![pair("a", "x"), pair("c", "x"), pair("b", "x")]),
        Err(ContractError::NotFound)
    );
    assert_eq!(
        query_current_batch_prices(&store, vec![pair("a", "x")]).unwrap().prices,
        vec![Price { amount: 5, timestamp: 1 }]
    );
}

#[test]
fn stranger_is_turned_away_whatever_the_names() {
    let mut store = proper_instantiate();
    let long = "n".repeat(70_000);
    let before = records(&store);
    assert_eq!(set(&mut store, STRANGER, 1, &long, &long, 1), Err(ContractError::Unauthorized));
    assert_eq!(
        try_set_batch_price(&mut store, STRANGER, 1, vec![entry("a", "b", 1), entry(&long, &long, 2)]),
        Err(ContractError::Unauthorized)
    );
    assert_eq!(
        execute(
            &mut store,
            STRANGER,
            1,
            ExecuteMsg::SetBatchPrice { prices: vec![entry(&long, "b", 1)] }
        ),
        Err(ContractError::Unauthorized)
    );
    assert_eq!(
        execute(
            &mut store,
            STRANGER,
            1,
            ExecuteMsg::SetSinglePrice { base_asset: long.clone(), quote_asset: long.clone(), amount: 1 }
        ),
        Err(ContractError::Unauthorized)
    );
    assert_eq!(records(&store), before);
}

#[test]
fn owner_commands_succeed() {
    let mut store = instantiate(InstantiateMsg { owner: "owner".to_string() }).unwrap();
    assert_eq!(set(&mut store, "owner", 10, "base", "quote", 100), Ok(()));
    assert_eq!(try_set_batch_price(&mut store, "owner", 20, vec![entry("base", "quote", 200)]), Ok(()));
    assert_eq!(current(&store, "base", "quote").unwrap().price, Price { amount: 200, timestamp: 20 });
    assert_eq!(history(&store, "base", "quote"), vec![(10, Price { amount: 100, timestamp: 10 })]);
    assert_eq!(try_update_config(&mut store, "owner", "next".to_string()), Ok(()));
    assert_eq!(set(&mut store, "next", 30, "base", "quote", u128::MAX), Ok(()));
    for (t, p) in history(&store, "base", "quote") {
        assert_eq!(p.timestamp, t);
    }
}

#[test]
fn fresh_batch_with_one_pair_twice() {
    let mut store = instantiate(InstantiateMsg { owner: "owner".to_string() }).unwrap();
    assert_eq!(
        try_set_batch_price(&mut store, "owner", 7, vec![entry("base", "quote", 100), entry("base", "quote", 200)]),
        Ok(())
    );
    assert_eq!(current(&store, "base", "quote").unwrap().price, Price { amount: 200, timestamp: 7 });
    assert_eq!(history(&store, "base", "quote"), vec![(7, Price { amount: 100, timestamp: 7 })]);
}
