use vstd::prelude::*;

verus! {

/// The JSON serialization of a string value, as the host's binary-encoding
/// collaborator writes it. The bytes depend on the characters alone.
pub uninterp spec fn json_str_bytes(s: Seq<char>) -> Seq<u8>;

/// Relies on cosmwasm_std::to_json_vec: deterministic JSON serialization.
/// Serializing a string writes its escaped text into a byte vector, and
/// that writer never fails, so the call succeeds on every string and the
/// bytes are the JSON encoding of its characters.
#[verifier::external_body]
pub fn encode_json_string(s: &String) -> (r: Option<Vec<u8>>)
    ensures
        r is Some,
        r matches Some(v) ==> v@ == json_str_bytes(s@),
{
    cosmwasm_std::to_json_vec(s).ok()
}

} // verus!
