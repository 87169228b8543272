use oscript_price::contract::handle;
use oscript_price::contract::init;
use oscript_price::contract::query;
use oscript_price::contract::query_datasource;
use oscript_price::contract::query_testcase;
use oscript_price::contract::try_update_datasource;
use oscript_price::contract::try_update_testcase;
use oscript_price::error::ContractError;
use oscript_price::msg::HandleMsg;
use oscript_price::msg::InitMsg;
use oscript_price::msg::QueryMsg;
use oscript_price::state::CanonicalAddress;
use oscript_price::state::Store;

fn addr(name: &str) -> CanonicalAddress {
    CanonicalAddress::new(name.as_bytes().to_vec())
}

fn decode(bytes: Vec<u8>) -> String {
    cosmwasm_std::from_json::<String>(&bytes).unwrap()
}

#[test]
fn proper_initialization() {
    let mut deps = Store::new();

    let msg = InitMsg {
        ai_data_source: "datasource_eth".to_string(),
        testcase: "testcase_price".to_string(),
    };
    let info = addr("creator");

    let res = init(&mut deps, info, msg);
    assert!(res.is_ok());

    let res = query(&deps, QueryMsg::GetDatasource {}).unwrap();
    let value: String = decode(res);
    assert_eq!("datasource_eth", value);
}

#[test]
fn update_datasource() {
    let mut deps = Store::new();

    let msg = InitMsg {
        ai_data_source: "datasource_eth".to_string(),
        testcase: "testcase_price".to_string(),
    };
    let info = addr("creator");
    let _res = init(&mut deps, info, msg).unwrap();

    let info = addr("creator");
    let msg = HandleMsg::UpdateDatasource {
        name: "datasource_btc".to_string(),
    };
    let _res = handle(&mut deps, &info, msg).unwrap();

    let res = query(&deps, QueryMsg::GetDatasource {}).unwrap();
    let value: String = decode(res);
    assert_eq!("datasource_btc", value);
}

#[test]
fn owner_bound_at_initialization_and_kept() {
    let mut store = Store::new();
    let owner = addr("alice");
    let msg = InitMsg {
        ai_data_source: "ds".to_string(),
        testcase: "tc".to_string(),
    };
    init(&mut store, owner, msg).unwrap();

    // the owner can mutate right after initialization and still after
    // several updates: ownership never moves
    try_update_datasource(&mut store, &addr("alice"), "ds2".to_string()).unwrap();
    try_update_testcase(&mut store, &addr("alice"), "tc2".to_string()).unwrap();
    try_update_datasource(&mut store, &addr("alice"), "ds3".to_string()).unwrap();
    assert_eq!(query_datasource(&store).unwrap(), "ds3");

    // and nobody else ever acquires the right
    let res = try_update_datasource(&mut store, &addr("bob"), "evil".to_string());
    assert_eq!(res.unwrap_err(), ContractError::Unauthorized);
}

#[test]
fn non_owner_update_changes_nothing() {
    let mut store = Store::new();
    init(
        &mut store,
        addr("alice"),
        InitMsg {
            ai_data_source: "ds".to_string(),
            testcase: "tc".to_string(),
        },
    )
    .unwrap();

    let res = try_update_datasource(&mut store, &addr("mallory"), "x".to_string());
    assert_eq!(res.unwrap_err(), ContractError::Unauthorized);
    let res = try_update_testcase(&mut store, &addr("mallory"), "y".to_string());
    assert_eq!(res.unwrap_err(), ContractError::Unauthorized);

    assert_eq!(query_datasource(&store).unwrap(), "ds");
    assert_eq!(query_testcase(&store).unwrap(), "tc");
}

#[test]
fn owner_update_targets_one_field() {
    let mut store = Store::new();
    init(
        &mut store,
        addr("alice"),
        InitMsg {
            ai_data_source: "ds".to_string(),
            testcase: "tc".to_string(),
        },
    )
    .unwrap();

    try_update_datasource(&mut store, &addr("alice"), "ds2".to_string()).unwrap();
    assert_eq!(query_datasource(&store).unwrap(), "ds2");
    assert_eq!(query_testcase(&store).unwrap(), "tc");

    try_update_testcase(&mut store, &addr("alice"), "tc2".to_string()).unwrap();
    assert_eq!(query_datasource(&store).unwrap(), "ds2");
    assert_eq!(query_testcase(&store).unwrap(), "tc2");
}

#[test]
fn uninitialized_store_not_found() {
    let mut store = Store::new();
    assert_eq!(
        query_datasource(&store).unwrap_err(),
        ContractError::NotFound
    );
    assert_eq!(query_testcase(&store).unwrap_err(), ContractError::NotFound);
    assert_eq!(
        query(&store, QueryMsg::GetTestcase {}).unwrap_err(),
        ContractError::NotFound
    );
    let res = try_update_datasource(&mut store, &addr("anyone"), "ds".to_string());
    assert_eq!(res.unwrap_err(), ContractError::NotFound);
}

#[test]
fn full_scenario_with_two_callers() {
    let mut store = Store::new();
    init(
        &mut store,
        addr("caller_a"),
        InitMsg {
            ai_data_source: "datasource_eth".to_string(),
            testcase: "testcase_price".to_string(),
        },
    )
    .unwrap();

    let res = query(&store, QueryMsg::GetDatasource {}).unwrap();
    assert_eq!(decode(res), "datasource_eth");

    handle(
        &mut store,
        &addr("caller_a"),
        HandleMsg::UpdateDatasource {
            name: "datasource_btc".to_string(),
        },
    )
    .unwrap();
    let res = query(&store, QueryMsg::GetDatasource {}).unwrap();
    assert_eq!(decode(res), "datasource_btc");

    let res = handle(
        &mut store,
        &addr("caller_b"),
        HandleMsg::UpdateDatasource {
            name: "datasource_doge".to_string(),
        },
    );
    assert_eq!(res.unwrap_err(), ContractError::Unauthorized);
    let res = query(&store, QueryMsg::GetDatasource {}).unwrap();
    assert_eq!(decode(res), "datasource_btc");
}

#[test]
fn query_encodes_as_json() {
    let mut store = Store::new();
    init(
        &mut store,
        addr("creator"),
        InitMsg {
            ai_data_source: "datasource_eth".to_string(),
            testcase: "testcase_price".to_string(),
        },
    )
    .unwrap();

    // the response is the JSON serialization of the string, quotes and
    // all, not the raw bytes of the string itself
    let res = query(&store, QueryMsg::GetDatasource {}).unwrap();
    assert_eq!(res, b"\"datasource_eth\"".to_vec());
    let res = query(&store, QueryMsg::GetTestcase {}).unwrap();
    assert_eq!(res, b"\"testcase_price\"".to_vec());
}

#[test]
fn reinitialization_overwrites() {
    let mut store = Store::new();
    init(
        &mut store,
        addr("alice"),
        InitMsg {
            ai_data_source: "ds1".to_string(),
            testcase: "tc1".to_string(),
        },
    )
    .unwrap();
    // a second initialization silently replaces record and owner
    init(
        &mut store,
        addr("bob"),
        InitMsg {
            ai_data_source: "ds2".to_string(),
            testcase: "tc2".to_string(),
        },
    )
    .unwrap();
    assert_eq!(query_datasource(&store).unwrap(), "ds2");
    let res = try_update_datasource(&mut store, &addr("alice"), "x".to_string());
    assert_eq!(res.unwrap_err(), ContractError::Unauthorized);
    try_update_datasource(&mut store, &addr("bob"), "ds3".to_string()).unwrap();
    assert_eq!(query_datasource(&store).unwrap(), "ds3");
}
