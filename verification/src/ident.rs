use vstd::prelude::*;
use vstd::string::*;

use crate::asset::Chain;

verus! {

/// The feed's slug for a chain, as it appears in a provider-specific
/// asset identifier.
pub open spec fn spec_chain_slug(c: Chain) -> Seq<char> {
    match c {
        Chain::Svm(_) => "solana"@,
        Chain::Evm(_) => "ethereum"@,
    }
}

/// A provider-specific asset identifier: `<chain-slug>:<address>`.
pub open spec fn spec_identifier(c: Chain, addr: Seq<char>) -> Seq<char> {
    spec_chain_slug(c) + seq![':'] + addr
}

/// The address encoded in an identifier: the suffix after the last `:`,
/// or `None` where the identifier holds no separator at all (malformed).
pub open spec fn spec_address_of(id: Seq<char>) -> Option<Seq<char>>
    decreases id.len(),
{
    if id.len() == 0 {
        None
    } else if id.last() == ':' {
        Some(Seq::empty())
    } else {
        match spec_address_of(id.drop_last()) {
            None => None,
            Some(s) => Some(s.push(id.last())),
        }
    }
}

pub proof fn lemma_address_of_no_colon(id: Seq<char>)
    requires
        forall|j: int| 0 <= j < id.len() ==> id[j] != ':',
    ensures
        spec_address_of(id) is None,
    decreases id.len(),
{
    if id.len() > 0 {
        lemma_address_of_no_colon(id.drop_last());
    }
}

pub proof fn lemma_address_of_last_colon(id: Seq<char>, k: int)
    requires
        0 <= k < id.len(),
        id[k] == ':',
        forall|j: int| k < j < id.len() ==> id[j] != ':',
    ensures
        spec_address_of(id) == Some(id.subrange(k + 1, id.len() as int)),
    decreases id.len(),
{
    if k == id.len() - 1 {
        assert(id.subrange(k + 1, id.len() as int) =~= Seq::empty());
    } else {
        lemma_address_of_last_colon(id.drop_last(), k);
        assert(id.subrange(k + 1, id.len() as int) =~= id.drop_last().subrange(
            k + 1,
            id.len() - 1,
        ).push(id.last()));
    }
}

/// Encoding an address into an identifier and taking the address back out
/// returns the original address, for every address free of the separator.
pub proof fn lemma_identifier_round_trip(c: Chain, addr: Seq<char>)
    requires
        forall|j: int| 0 <= j < addr.len() ==> addr[j] != ':',
    ensures
        spec_address_of(spec_identifier(c, addr)) == Some(addr),
{
    let id = spec_identifier(c, addr);
    let k = spec_chain_slug(c).len() as int;
    assert(id[k] == ':');
    assert forall|j: int| k < j < id.len() implies id[j] != ':' by {
        assert(id[j] == addr[j - k - 1]);
    }
    lemma_address_of_last_colon(id, k);
    assert(id.subrange(k + 1, id.len() as int) =~= addr);
}

/// Character-for-character string equality.
pub fn str_eq(a: &str, b: &str) -> (r: bool)
    ensures
        r == (a@ == b@),
{
    let na = a.unicode_len();
    let nb = b.unicode_len();
    if na != nb {
        return false;
    }
    let mut i: usize = 0;
    while i < na
        invariant
            i <= na,
            na == a@.len(),
            na == b@.len(),
            forall|j: int| 0 <= j < i ==> a@[j] == b@[j],
        decreases na - i,
    {
        if a.get_char(i) != b.get_char(i) {
            return false;
        }
        i = i + 1;
    }
    proof {
        assert(a@ =~= b@);
    }
    true
}

/// The feed's slug for a chain.
pub fn chain_slug(c: &Chain) -> (r: &'static str)
    ensures
        r@ == spec_chain_slug(*c),
{
    match c {
        Chain::Svm(_) => "solana",
        Chain::Evm(_) => "ethereum",
    }
}

/// Builds the provider-specific identifier `<chain-slug>:<address>`.
pub fn identifier_of(c: &Chain, address: &str) -> (r: String)
    ensures
        r@ == spec_identifier(*c, address@),
{
    let mut s = String::from_str(chain_slug(c));
    s.append(":");
    s.append(address);
    proof {
        reveal_strlit(":");
        assert(":"@ =~= seq![':']);
        assert(s@ =~= spec_identifier(*c, address@));
    }
    s
}

/// Derives the address from a feed identifier: the suffix after the last
/// separator, or `None` where the identifier is malformed (no separator).
pub fn address_of_identifier(id: &str) -> (r: Option<String>)
    ensures
        match r {
            Some(a) => spec_address_of(id@) == Some(a@),
            None => spec_address_of(id@) is None,
        },
{
    let n = id.unicode_len();
    let mut i = n;
    loop
        invariant
            i <= n,
            n == id@.len(),
            forall|j: int| i <= j < n ==> id@[j] != ':',
        decreases i,
    {
        if i == 0 {
            proof {
                lemma_address_of_no_colon(id@);
            }
            return None;
        }
        if id.get_char(i - 1) == ':' {
            let a = id.substring_char(i, n);
            proof {
                lemma_address_of_last_colon(id@, i - 1);
            }
            return Some(String::from_str(a));
        }
        i = i - 1;
    }
}

} // verus!
