use vstd::prelude::*;

use crate::aggregate::aggregate_output;
use crate::aggregate::all_entries_ok;
use crate::aggregate::query_aggregation;
use crate::encode::encode_json_string;
use crate::encode::json_str_bytes;
use crate::error::ContractError;
use crate::msg::HandleMsg;
use crate::msg::InitMsg;
use crate::msg::QueryMsg;
use crate::state::with_datasource;
use crate::state::with_testcase;
use crate::state::CanonicalAddress;
use crate::state::State;
use crate::state::StateV;
use crate::state::Store;

verus! {

/// Creates and persists the one record: the identifiers come from the
/// message, and the sender's canonical address becomes the immutable
/// owner. A record already persisted is silently overwritten; rejecting
/// re-initialization is a policy choice this store does not make.
pub fn init(store: &mut Store, sender: CanonicalAddress, msg: InitMsg) -> (r: Result<
    (),
    ContractError,
>)
    ensures
        r is Ok,
        final(store)@ == Some(
            (StateV {
                ai_data_source: msg.ai_data_source@,
                testcase: msg.testcase@,
                owner: sender@,
            }),
        ),
{
    store.save(
        State { ai_data_source: msg.ai_data_source, testcase: msg.testcase, owner: sender },
    );
    Ok(())
}

/// Routes a mutating command to the update it names. Both updates demand
/// that the sender's canonical address equal the record's owner.
pub fn handle(store: &mut Store, sender: &CanonicalAddress, msg: HandleMsg) -> (r: Result<
    (),
    ContractError,
>)
    ensures
        match old(store)@ {
            None => r == Err::<(), ContractError>(ContractError::NotFound) && final(store)@ is None,
            Some(st) => if st.owner == sender@ {
                r is Ok && final(store)@ == Some(
                    match msg {
                        HandleMsg::UpdateDatasource { name } => with_datasource(st, name@),
                        HandleMsg::UpdateTestcase { name } => with_testcase(st, name@),
                    },
                )
            } else {
                r == Err::<(), ContractError>(ContractError::Unauthorized) && final(store)@ == old(
                    store,
                )@
            },
        },
{
    match msg {
        HandleMsg::UpdateDatasource { name } => try_update_datasource(store, sender, name),
        HandleMsg::UpdateTestcase { name } => try_update_testcase(store, sender, name),
    }
}

/// Replaces the record's data-source identifier, after the authorization
/// check: a sender other than the owner is refused with `Unauthorized`
/// and the record is left exactly as it was; the owner's update rewrites
/// `ai_data_source` alone.
pub fn try_update_datasource(store: &mut Store, sender: &CanonicalAddress, name: String) -> (r:
    Result<(), ContractError>)
    ensures
        match old(store)@ {
            None => r == Err::<(), ContractError>(ContractError::NotFound) && final(store)@ is None,
            Some(st) => if st.owner == sender@ {
                r is Ok && final(store)@ == Some(with_datasource(st, name@))
            } else {
                r == Err::<(), ContractError>(ContractError::Unauthorized) && final(store)@ == old(
                    store,
                )@
            },
        },
{
    let st = match store.take() {
        Ok(st) => st,
        Err(e) => {
            return Err(e);
        },
    };
    if !st.owner.same_as(sender) {
        store.save(st);
        return Err(ContractError::Unauthorized);
    }
    store.save(State { ai_data_source: name, testcase: st.testcase, owner: st.owner });
    Ok(())
}

/// Replaces the record's test-case identifier under the same
/// authorization rule as `try_update_datasource`: only the owner may
/// mutate, and only `testcase` changes.
pub fn try_update_testcase(store: &mut Store, sender: &CanonicalAddress, name: String) -> (r:
    Result<(), ContractError>)
    ensures
        match old(store)@ {
            None => r == Err::<(), ContractError>(ContractError::NotFound) && final(store)@ is None,
            Some(st) => if st.owner == sender@ {
                r is Ok && final(store)@ == Some(with_testcase(st, name@))
            } else {
                r == Err::<(), ContractError>(ContractError::Unauthorized) && final(store)@ == old(
                    store,
                )@
            },
        },
{
    let st = match store.take() {
        Ok(st) => st,
        Err(e) => {
            return Err(e);
        },
    };
    if !st.owner.same_as(sender) {
        store.save(st);
        return Err(ContractError::Unauthorized);
    }
    store.save(State { ai_data_source: st.ai_data_source, testcase: name, owner: st.owner });
    Ok(())
}

/// Reads the persisted data-source identifier.
pub fn query_datasource(store: &Store) -> (r: Result<String, ContractError>)
    ensures
        match store@ {
            Some(st) => r matches Ok(s) && s@ == st.ai_data_source,
            None => r == Err::<String, ContractError>(ContractError::NotFound),
        },
{
    match store.load() {
        Ok(st) => Ok(st.ai_data_source.clone()),
        Err(e) => Err(e),
    }
}

/// Reads the persisted test-case identifier.
pub fn query_testcase(store: &Store) -> (r: Result<String, ContractError>)
    ensures
        match store@ {
            Some(st) => r matches Ok(s) && s@ == st.testcase,
            None => r == Err::<String, ContractError>(ContractError::NotFound),
        },
{
    match store.load() {
        Ok(st) => Ok(st.testcase.clone()),
        Err(e) => Err(e),
    }
}

/// The string a read-only command answers with, or the error it fails
/// with: the persisted identifier for the two getters, the averaged
/// decimal string for aggregation.
pub open spec fn spec_query_response(st: Option<StateV>, msg: QueryMsg) -> Result<
    Seq<char>,
    ContractError,
> {
    match msg {
        QueryMsg::GetDatasource {  } => match st {
            Some(v) => Ok(v.ai_data_source),
            None => Err(ContractError::NotFound),
        },
        QueryMsg::GetTestcase {  } => match st {
            Some(v) => Ok(v.testcase),
            None => Err(ContractError::NotFound),
        },
        QueryMsg::Aggregate { results } => if results@.len() == 0 {
            Err(ContractError::EmptyInput)
        } else if !all_entries_ok(results.deep_view()) {
            Err(ContractError::ParseError)
        } else {
            Ok(aggregate_output(results.deep_view()))
        },
    }
}

/// Answers a read-only command: computes the response string that
/// `spec_query_response` names and returns its JSON encoding. A failing
/// command returns its exact error; a command that is owed an answer
/// always gets it.
pub fn query(store: &Store, msg: QueryMsg) -> (r: Result<Vec<u8>, ContractError>)
    ensures
        spec_query_response(store@, msg) matches Err(e) ==> r == Err::<Vec<u8>, ContractError>(e),
        spec_query_response(store@, msg) matches Ok(s) ==> r matches Ok(v) && v@ == json_str_bytes(
            s,
        ),
{
    let resp: String = match msg {
        QueryMsg::GetDatasource {  } => match query_datasource(store) {
            Ok(s) => s,
            Err(e) => {
                return Err(e);
            },
        },
        QueryMsg::GetTestcase {  } => match query_testcase(store) {
            Ok(s) => s,
            Err(e) => {
                return Err(e);
            },
        },
        QueryMsg::Aggregate { results } => match query_aggregation(results) {
            Ok(s) => s,
            Err(e) => {
                return Err(e);
            },
        },
    };
    match encode_json_string(&resp) {
        Some(v) => Ok(v),
        None => vstd::pervasive::unreached(),
    }
}

} // verus!
