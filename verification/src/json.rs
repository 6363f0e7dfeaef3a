//! JSON encoding of plain values by `cosmwasm_std`, the encoding that contract
//! messages carry their inner payloads in.

use vstd::prelude::*;

verus! {

#[verifier::external_type_specification]
#[verifier::external_body]
pub struct ExStdError(cosmwasm_std::StdError);

/// The ASCII decimal digits of `n`, most significant first, without leading zeros.
pub open spec fn decimal(n: nat) -> Seq<u8>
    decreases n,
{
    if n < 10 {
        seq![(48 + n) as u8]
    } else {
        decimal(n / 10).push((48 + n % 10) as u8)
    }
}

/// The number that the ASCII decimal digits `s` spell, most significant first.
pub open spec fn digits_value(s: Seq<u8>) -> int
    decreases s.len(),
{
    if s.len() == 0 {
        0
    } else {
        digits_value(s.drop_last()) * 10 + (s.last() - 48)
    }
}

/// `decimal(n)` is a non-empty run of ASCII digits that spells `n`, with no
/// leading zero unless `n` is 0.
pub proof fn lemma_decimal(n: nat)
    ensures
        decimal(n).len() >= 1,
        forall|i: int| 0 <= i < decimal(n).len() ==> 48 <= #[trigger] decimal(n)[i] <= 57,
        digits_value(decimal(n)) == n,
        n > 0 ==> decimal(n)[0] != 48,
    decreases n,
{
    if n < 10 {
        let d = decimal(n);
        assert(d.drop_last() =~= Seq::<u8>::empty());
        assert(digits_value(d.drop_last()) == 0);
        assert(d.last() == (48 + n) as u8);
    }
    if n >= 10 {
        lemma_decimal(n / 10);
        let d = decimal(n);
        assert(d.last() == (48 + n % 10) as u8);
        assert(d.last() - 48 == n % 10);
        assert(d.drop_last() =~= decimal(n / 10));
        assert(digits_value(d) == digits_value(decimal(n / 10)) * 10 + n % 10);
        assert((n / 10) * 10 + n % 10 == n);
        assert forall|i: int| 0 <= i < d.len() implies 48 <= #[trigger] d[i] <= 57 by {
            if i < d.len() - 1 {
                assert(d[i] == decimal(n / 10)[i]);
            }
        }
        assert(d[0] == decimal(n / 10)[0]);
    }
}

/// The JSON text of a byte vector opens with `[` and closes with `]`; between
/// them, each further byte adds a comma and its decimal digits after the items
/// before it.
pub proof fn lemma_json_of_bytes(v: Seq<u8>, b: u8)
    ensures
        json_of_bytes(v)[0] == 91u8,
        json_of_bytes(v).last() == 93u8,
        json_of_bytes(v).subrange(1, json_of_bytes(v).len() - 1) == json_items(v),
        json_items(seq![b]) == decimal(b as nat),
        v.len() >= 1 ==> json_items(v.push(b)) == json_items(v) + seq![44u8] + decimal(b as nat),
        json_of_u128(b as u128)[0] == 34u8,
        json_of_u128(b as u128).last() == 34u8,
{
    let j = json_of_bytes(v);
    assert(j.subrange(1, j.len() - 1) =~= json_items(v));
    assert(v.push(b).drop_last() =~= v);
    assert(json_items(v).push(44u8) =~= json_items(v) + seq![44u8]);
}

/// The decimal numbers of `v`, separated by commas.
pub open spec fn json_items(v: Seq<u8>) -> Seq<u8>
    decreases v.len(),
{
    if v.len() == 0 {
        Seq::empty()
    } else if v.len() == 1 {
        decimal(v[0] as nat)
    } else {
        json_items(v.drop_last()).push(44u8) + decimal(v.last() as nat)
    }
}

/// The JSON text of a byte vector: `[`, its numbers in decimal separated by
/// commas, `]`.
pub open spec fn json_of_bytes(v: Seq<u8>) -> Seq<u8> {
    seq![91u8] + json_items(v) + seq![93u8]
}

/// The JSON text of a `u128`: its decimal digits in double quotes.
pub open spec fn json_of_u128(v: u128) -> Seq<u8> {
    seq![34u8] + decimal(v as nat) + seq![34u8]
}

/// Calls `cosmwasm_std::to_binary` on a byte vector. Trusted: serde_json_wasm
/// writes a sequence as `[`, its elements separated by commas, `]`, and a `u8`
/// as its decimal digits, and reports no error on either, so the call always
/// succeeds with the JSON text of exactly the vector given.
#[verifier::external_body]
pub(crate) fn to_binary_bytes(v: &Vec<u8>) -> (r: Result<Vec<u8>, cosmwasm_std::StdError>)
    ensures
        r is Ok,
        r matches Ok(bytes) ==> bytes@ == json_of_bytes(v@),
{
    #[allow(deprecated)]
    cosmwasm_std::to_binary(v).map(|b| b.0)
}

/// Calls `cosmwasm_std::to_binary` on a `u128`. Trusted: serde_json_wasm writes
/// a `u128` as its decimal digits in double quotes and reports no error, so the
/// call always succeeds with the JSON text of exactly the number given.
#[verifier::external_body]
pub(crate) fn to_binary_u128(v: u128) -> (r: Result<Vec<u8>, cosmwasm_std::StdError>)
    ensures
        r is Ok,
        r matches Ok(bytes) ==> bytes@ == json_of_u128(v),
{
    #[allow(deprecated)]
    cosmwasm_std::to_binary(&v).map(|b| b.0)
}

} // verus!
