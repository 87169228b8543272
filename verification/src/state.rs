use vstd::prelude::*;

verus! {

/// The ledger-normalized binary identity of an account, as handed back by
/// the host's address-canonicalization service. Two textual spellings of
/// the same account canonicalize to the same byte string, so equality of
/// these bytes is equality of accounts.
pub struct CanonicalAddress {
    pub bytes: Vec<u8>,
}

impl View for CanonicalAddress {
    type V = Seq<u8>;

    open spec fn view(&self) -> Seq<u8> {
        self.bytes@
    }
}

impl CanonicalAddress {
    pub fn new(bytes: Vec<u8>) -> (a: CanonicalAddress)
        ensures
            a@ == bytes@,
    {
        CanonicalAddress { bytes }
    }

    /// Byte-for-byte equality of two canonical addresses.
    pub fn same_as(&self, other: &CanonicalAddress) -> (r: bool)
        ensures
            r == (self@ == other@),
    {
        let n = self.bytes.len();
        if n != other.bytes.len() {
            proof {
                assert(self@ != other@);
            }
            return false;
        }
        let mut i: usize = 0;
        while i < n
            invariant
                n == self.bytes.len() == other.bytes.len(),
                i <= n,
                forall|k: int| 0 <= k < i ==> self@[k] == other@[k],
            decreases n - i,
        {
            if self.bytes[i] != other.bytes[i] {
                proof {
                    assert(self@[i as int] != other@[i as int]);
                }
                return false;
            }
            i += 1;
        }
        proof {
            assert(self@ =~= other@);
        }
        true
    }
}

/// The sole persisted record: the identifiers of the active data source and
/// test case, and the canonical address of the account allowed to mutate them.
pub struct State {
    pub ai_data_source: String,
    pub testcase: String,
    pub owner: CanonicalAddress,
}

/// Mathematical image of a `State`: both identifiers as character
/// sequences and the owner as a byte sequence.
pub ghost struct StateV {
    pub ai_data_source: Seq<char>,
    pub testcase: Seq<char>,
    pub owner: Seq<u8>,
}

impl View for State {
    type V = StateV;

    open spec fn view(&self) -> StateV {
        StateV {
            ai_data_source: self.ai_data_source@,
            testcase: self.testcase@,
            owner: self.owner@,
        }
    }
}

/// The record as it stands after a successful data-source update: the same
/// record with only `ai_data_source` replaced.
pub open spec fn with_datasource(st: StateV, name: Seq<char>) -> StateV {
    StateV { ai_data_source: name, testcase: st.testcase, owner: st.owner }
}

/// The record as it stands after a successful test-case update: the same
/// record with only `testcase` replaced.
pub open spec fn with_testcase(st: StateV, name: Seq<char>) -> StateV {
    StateV { ai_data_source: st.ai_data_source, testcase: name, owner: st.owner }
}

/// The singleton slot that stands for the contract's storage namespace:
/// it holds the one `State` record once `init` has run, and nothing before.
pub struct Store {
    record: Option<State>,
}

impl View for Store {
    type V = Option<StateV>;

    closed spec fn view(&self) -> Option<StateV> {
        match self.record {
            Some(st) => Some(st@),
            None => None,
        }
    }
}

impl Store {
    /// A fresh store with no record persisted yet.
    pub fn new() -> (s: Store)
        ensures
            s@ is None,
    {
        Store { record: None }
    }

    /// Replaces whatever record is persisted with `st`.
    pub fn save(&mut self, st: State)
        ensures
            final(self)@ == Some(st@),
    {
        self.record = Some(st);
    }

    /// Takes the persisted record out for a read-modify-write, or fails
    /// with `NotFound` when none exists. The caller saves the record back,
    /// changed or not.
    pub fn take(&mut self) -> (r: Result<State, crate::error::ContractError>)
        ensures
            match r {
                Ok(st) => old(self)@ == Some(st@),
                Err(e) => old(self)@ is None && e == crate::error::ContractError::NotFound,
            },
            final(self)@ is None,
    {
        match self.record.take() {
            Some(st) => Ok(st),
            None => Err(crate::error::ContractError::NotFound),
        }
    }

    /// Reads the persisted record, or fails with `NotFound` when none exists.
    pub fn load(&self) -> (r: Result<&State, crate::error::ContractError>)
        ensures
            match r {
                Ok(st) => self@ == Some(st@),
                Err(e) => self@ is None && e == crate::error::ContractError::NotFound,
            },
    {
        match &self.record {
            Some(st) => Ok(st),
            None => Err(crate::error::ContractError::NotFound),
        }
    }
}

} // verus!
