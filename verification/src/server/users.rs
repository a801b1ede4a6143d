use vstd::prelude::*;
use dashmap::DashMap;
use crate::server::acceptor::{password_to_sha2_hex, sha224, spec_hex_lower_chars};
use vstd::utf8::encode_utf8;

verus! {

#[verifier::external_type_specification]
#[verifier::external_body]
#[verifier::reject_recursive_types(K)]
#[verifier::reject_recursive_types(V)]
#[verifier::reject_recursive_types(S)]
pub struct ExDashMap<K, V, S>(DashMap<K, V, S>);

/// The entries of a table of secrets: each key string with its flag.
pub uninterp spec fn secret_table(m: DashMap<String, bool>) -> Map<Seq<char>, bool>;

/// `dashmap::DashMap::insert`: trusted to set `key` to `value`, leaving every other entry as it
/// was, and to return the value that `key` had before, if any. Keys are compared by their
/// contents (`String`'s `Eq` and `Hash`).
#[verifier::external_body]
pub(crate) fn table_insert(map: &mut DashMap<String, bool>, key: String, value: bool) -> (prev: Option<bool>)
    ensures
        secret_table(*final(map)) == secret_table(*old(map)).insert(key@, value),
        prev == (if secret_table(*old(map)).dom().contains(key@) {
            Some(secret_table(*old(map))[key@])
        } else {
            None
        }),
{
    map.insert(key, value)
}

/// The key under which a password is registered: the hex of the SHA-224 digest of its UTF-8
/// bytes.
pub open spec fn spec_secret_key(pass: Seq<char>) -> Seq<char> {
    spec_hex_lower_chars(sha224(encode_utf8(pass)))
}

/// Registers the secret of one password: its key maps to `true`, the rest is unchanged.
pub fn add_secret(secrets: &mut DashMap<String, bool>, pass: &str)
    ensures
        secret_table(*final(secrets)) == secret_table(*old(secrets)).insert(
            spec_secret_key(pass@),
            true,
        ),
{
    let hex = password_to_sha2_hex(pass);
    table_insert(secrets, hex, true);
}

/// The table after registering the passwords `passes` in order into `m`.
pub open spec fn spec_register(m: Map<Seq<char>, bool>, passes: Seq<Seq<char>>) -> Map<Seq<char>, bool>
    decreases passes.len(),
{
    if passes.len() == 0 {
        m
    } else {
        spec_register(m, passes.drop_last()).insert(spec_secret_key(passes.last()), true)
    }
}

/// The passwords held by a vector of strings.
pub open spec fn spec_passwords(arr: Seq<String>) -> Seq<Seq<char>> {
    arr.map_values(|s: String| s@)
}

/// Registers the secrets of all passwords in `arr`, in order.
pub fn add_secrets(secrets: &mut DashMap<String, bool>, arr: &Vec<String>)
    ensures
        secret_table(*final(secrets)) == spec_register(secret_table(*old(secrets)), spec_passwords(arr@)),
{
    let ghost start = secret_table(*secrets);
    let mut n: usize = 0;
    while n < arr.len()
        invariant
            n <= arr@.len(),
            secret_table(*secrets) == spec_register(start, spec_passwords(arr@).take(n as int)),
        decreases arr@.len() - n,
    {
        let pass = arr[n].as_str();
        let hex = password_to_sha2_hex(pass);
        table_insert(secrets, hex, true);
        assert(spec_passwords(arr@).take(n + 1).drop_last() =~= spec_passwords(arr@).take(n as int));
        n = n + 1;
    }
    assert(spec_passwords(arr@).take(n as int) =~= spec_passwords(arr@));
}

/// Law: after registering passwords, the key of each one maps to `true`, and every key that is
/// no password's keeps the entry it had.
pub proof fn lemma_register_effect(m: Map<Seq<char>, bool>, passes: Seq<Seq<char>>, k: Seq<char>)
    ensures
        (exists|i: int| 0 <= i < passes.len() && k == spec_secret_key(passes[i])) ==> (
            spec_register(m, passes).dom().contains(k) && spec_register(m, passes)[k] == true),
        !(exists|i: int| 0 <= i < passes.len() && k == spec_secret_key(passes[i])) ==> (
            spec_register(m, passes).dom().contains(k) == m.dom().contains(k)
            && spec_register(m, passes)[k] == m[k]),
    decreases passes.len(),
{
    if passes.len() > 0 {
        let rest = passes.drop_last();
        lemma_register_effect(m, rest, k);
        if exists|i: int| 0 <= i < passes.len() && k == spec_secret_key(passes[i]) {
            let i = choose|i: int| 0 <= i < passes.len() && k == spec_secret_key(passes[i]);
            if i < passes.len() - 1 {
                assert(rest[i] == passes[i]);
            }
        } else {
            assert forall|i: int| 0 <= i < rest.len() implies k != spec_secret_key(rest[i]) by {
                assert(rest[i] == passes[i]);
            }
            assert(k != spec_secret_key(passes.last()));
        }
    }
}

} // verus!
