use vstd::prelude::*;

verus! {

/// Payload of the one-time initialization command. The caller that sends
/// it becomes the record's owner.
pub struct InitMsg {
    pub ai_data_source: String,
    pub testcase: String,
}

/// The two mutating commands; both require the caller to be the owner.
pub enum HandleMsg {
    UpdateDatasource { name: String },
    UpdateTestcase { name: String },
}

/// The read-only commands; none requires authorization.
pub enum QueryMsg {
    GetDatasource {},
    GetTestcase {},
    Aggregate { results: Vec<String> },
}

} // verus!
