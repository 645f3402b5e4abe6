//! DHT key patterns for shard discovery.
use vstd::prelude::*;
use vstd::string::*;
use crate::text::{
    after_last, after_last_char, all_digits, append_decimal, decimal, digit_char, digit_value,
    digits_value, is_digit,
    last_index_of, parse_u32, parse_u32_spec,
};

verus! {

pub open spec fn cluster_key_spec(cluster_name: Seq<char>) -> Seq<char> {
    "/llama-cluster/"@ + cluster_name
}

pub open spec fn shard_key_spec(cluster_name: Seq<char>, shard_id: u32) -> Seq<char> {
    "/llama-cluster/"@ + cluster_name + "/shard/"@ + decimal(shard_id as nat)
}

pub open spec fn all_shards_key_spec(cluster_name: Seq<char>) -> Seq<char> {
    "/llama-cluster/"@ + cluster_name + "/shards"@
}

pub open spec fn metadata_key_spec(cluster_name: Seq<char>) -> Seq<char> {
    "/llama-cluster/"@ + cluster_name + "/metadata"@
}

/// The shard id that a shard key ends with: the text after the last `/`,
/// read as a `u32`.
pub open spec fn parse_shard_id_spec(key: Seq<char>) -> Option<u32> {
    parse_u32_spec(after_last(key, '/'))
}

/// Key for a specific cluster: `/llama-cluster/{cluster_name}`.
pub fn cluster_key(cluster_name: &str) -> (k: String)
    ensures
        k@ == cluster_key_spec(cluster_name@),
{
    let mut k = String::from_str("/llama-cluster/");
    k.append(cluster_name);
    k
}

/// Key for a specific shard in a cluster:
/// `/llama-cluster/{cluster_name}/shard/{shard_id}`.
pub fn shard_key(cluster_name: &str, shard_id: u32) -> (k: String)
    ensures
        k@ == shard_key_spec(cluster_name@, shard_id),
{
    let mut k = String::from_str("/llama-cluster/");
    k.append(cluster_name);
    k.append("/shard/");
    append_decimal(&mut k, shard_id as u128);
    k
}

/// Key for listing all shards of a cluster:
/// `/llama-cluster/{cluster_name}/shards`.
pub fn all_shards_key(cluster_name: &str) -> (k: String)
    ensures
        k@ == all_shards_key_spec(cluster_name@),
{
    let mut k = String::from_str("/llama-cluster/");
    k.append(cluster_name);
    k.append("/shards");
    k
}

/// Key for cluster metadata: `/llama-cluster/{cluster_name}/metadata`.
pub fn metadata_key(cluster_name: &str) -> (k: String)
    ensures
        k@ == metadata_key_spec(cluster_name@),
{
    let mut k = String::from_str("/llama-cluster/");
    k.append(cluster_name);
    k.append("/metadata");
    k
}

/// Parses the shard id from a shard key (the last `/`-separated part).
pub fn parse_shard_id(key: &str) -> (r: Option<u32>)
    ensures
        r == parse_shard_id_spec(key@),
{
    parse_u32(after_last_char(key, '/'))
}

/// Law: reading back the id of a shard key gives the id it was built from,
/// for every cluster name and every id.
pub proof fn lemma_shard_key_roundtrip(cluster_name: Seq<char>, shard_id: u32)
    ensures
        parse_shard_id_spec(shard_key_spec(cluster_name, shard_id)) == Some(shard_id),
{
    let k = shard_key_spec(cluster_name, shard_id);
    let d = decimal(shard_id as nat);
    reveal_strlit("/shard/");
    reveal_strlit("/llama-cluster/");
    let pre = "/llama-cluster/"@ + cluster_name + "/shard/"@;
    assert(k =~= pre + d);
    lemma_decimal_digits(shard_id as nat);
    // the last '/' of the key is the last character of "/shard/"
    assert(pre.last() == '/');
    assert forall|j: int| pre.len() - 1 < j < k.len() implies k[j] != '/' by {
        assert(k[j] == d[j - pre.len()]);
        assert(is_digit(d[j - pre.len()]));
    }
    lemma_last_index_is(k, '/', pre.len() - 1);
    assert(after_last(k, '/') =~= d);
    assert(d.len() > 0);
    assert(d[0] != '+');
}

proof fn lemma_last_index_is(s: Seq<char>, c: char, k: int)
    requires
        0 <= k < s.len(),
        s[k] == c,
        forall|j: int| k < j < s.len() ==> s[j] != c,
    ensures
        last_index_of(s, c) == k,
    decreases s.len(),
{
    if s.last() != c {
        assert forall|j: int| k < j < s.drop_last().len() implies s.drop_last()[j] != c by {
            assert(s.drop_last()[j] == s[j]);
        }
        lemma_last_index_is(s.drop_last(), c, k);
    }
}

proof fn lemma_digit_roundtrip(d: nat)
    requires
        d < 10,
    ensures
        is_digit(digit_char(d)),
        digit_value(digit_char(d)) == d,
{
}

/// The decimal rendering consists of digits and reads back as the number.
pub proof fn lemma_decimal_digits(n: nat)
    ensures
        decimal(n).len() > 0,
        all_digits(decimal(n)),
        digits_value(decimal(n)) == n,
    decreases n,
{
    lemma_digit_roundtrip(n % 10);
    if n >= 10 {
        lemma_decimal_digits(n / 10);
        let s = decimal(n / 10);
        assert(decimal(n).drop_last() =~= s);
        assert forall|i: int| 0 <= i < decimal(n).len() implies is_digit(#[trigger] decimal(n)[i]) by {
            if i < s.len() {
                assert(decimal(n)[i] == s[i]);
            }
        }
        assert(decimal(n).last() == digit_char(n % 10));
        assert(digits_value(decimal(n)) == digits_value(s) * 10 + digit_value(digit_char(n % 10)));
        assert((n / 10) * 10 + n % 10 == n) by (nonlinear_arith);
    } else {
        assert(decimal(n).drop_last() =~= Seq::<char>::empty());
        assert(digits_value(decimal(n)) == digits_value(Seq::<char>::empty()) * 10 + digit_value(
            digit_char(n),
        ));
    }
}

} // verus!
