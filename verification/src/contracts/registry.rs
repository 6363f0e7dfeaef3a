//! The chain registry: which Wormhole core, account factory and account
//! deployer serve each chain, one entry per Wormhole chain id.

use vstd::prelude::*;
use crate::error::XcaError;
use crate::xca::registry::{ChainInfo, ConfigResponse, ExecuteMsg, InstantiateMsg};

verus! {

/// The registry's stored configuration.
pub struct Config {
    pub chain_id_here: u64,
    pub x_account_code_id: u64,
    pub chain_info: Vec<ChainInfo>,
}

/// The index of the first entry of `s` for chain `id`, or `s.len()` when there is none.
pub open spec fn match_index(s: Seq<ChainInfo>, id: u64) -> nat
    decreases s.len(),
{
    if s.len() == 0 {
        0
    } else if s[0].wormhole_id == id {
        0
    } else {
        1 + match_index(s.drop_first(), id)
    }
}

/// The first entry of `s` for chain `id`, if any.
pub open spec fn spec_find(s: Seq<ChainInfo>, id: u64) -> Option<ChainInfo> {
    let p = match_index(s, id);
    if p < s.len() {
        Some(s[p as int])
    } else {
        None
    }
}

/// `s` after an upsert of `ci`: the first entry with the same chain id leaves,
/// and `ci` goes to the end.
pub open spec fn spec_upsert(s: Seq<ChainInfo>, ci: ChainInfo) -> Seq<ChainInfo> {
    let p = match_index(s, ci.wormhole_id);
    if p < s.len() {
        s.remove(p as int).push(ci)
    } else {
        s.push(ci)
    }
}

/// No two entries of `s` are for the same chain.
pub open spec fn unique_ids(s: Seq<ChainInfo>) -> bool {
    forall|i: int, j: int|
        0 <= i < s.len() && 0 <= j < s.len() && i != j ==> s[i].wormhole_id != s[j].wormhole_id
}

/// `match_index` is the first index whose entry is for `id`.
pub proof fn lemma_match_index(s: Seq<ChainInfo>, id: u64)
    ensures
        match_index(s, id) <= s.len(),
        match_index(s, id) < s.len() ==> s[match_index(s, id) as int].wormhole_id == id,
        forall|j: int| 0 <= j < match_index(s, id) ==> s[j].wormhole_id != id,
    decreases s.len(),
{
    if s.len() > 0 && s[0].wormhole_id != id {
        lemma_match_index(s.drop_first(), id);
        assert forall|j: int| 0 <= j < match_index(s, id) implies s[j].wormhole_id != id by {
            if j > 0 {
                assert(s[j] == s.drop_first()[j - 1]);
            }
        }
    }
}

/// An index before which no entry is for `id`, and at which one is or the
/// entries end, is `match_index`.
pub proof fn lemma_match_index_at(s: Seq<ChainInfo>, id: u64, i: int)
    requires
        0 <= i <= s.len(),
        forall|j: int| 0 <= j < i ==> s[j].wormhole_id != id,
        i < s.len() ==> s[i].wormhole_id == id,
    ensures
        match_index(s, id) == i,
{
    lemma_match_index(s, id);
    let p = match_index(s, id) as int;
    if p < i {
        assert(s[p].wormhole_id != id);
    } else if p > i {
        assert(s[i].wormhole_id == id);
    }
}

/// In a registry without repeated chain ids, an entry is for `id` exactly when
/// it is the one that `spec_find` gives.
pub proof fn lemma_find_unique(s: Seq<ChainInfo>, id: u64, k: int)
    requires
        unique_ids(s),
        0 <= k < s.len(),
        s[k].wormhole_id == id,
    ensures
        match_index(s, id) == k,
        spec_find(s, id) == Some(s[k]),
{
    lemma_match_index_at(s, id, k);
}

/// The index of the first entry of `infos` for chain `id`, or its length when there is none.
fn position(infos: &Vec<ChainInfo>, id: u64) -> (r: usize)
    ensures
        r as nat == match_index(infos@, id),
{
    let mut i: usize = 0;
    while i < infos.len() && infos[i].wormhole_id != id
        invariant
            i <= infos@.len(),
            forall|j: int| 0 <= j < i ==> infos@[j].wormhole_id != id,
        decreases infos@.len() - i,
    {
        i = i + 1;
    }
    proof {
        lemma_match_index_at(infos@, id, i as int);
    }
    i
}

/// The first entry of `infos` for chain `id`, taken out of the list.
pub fn find_chain_info(infos: Vec<ChainInfo>, id: u64) -> (r: Option<ChainInfo>)
    ensures
        r == spec_find(infos@, id),
{
    let p = position(&infos, id);
    if p < infos.len() {
        let mut infos = infos;
        Some(infos.remove(p))
    } else {
        None
    }
}

/// The entry of the chain that the registry names as its own, or
/// `MissingChainInfo` when the registry holds none.
pub fn local_chain_info(res: ConfigResponse) -> (r: Result<ChainInfo, XcaError>)
    ensures
        spec_find(res.chain_info@, res.chain_id_here) matches Some(ci) ==> r == Ok::<
            ChainInfo,
            XcaError,
        >(ci),
        spec_find(res.chain_info@, res.chain_id_here) is None ==> r matches Err(
            XcaError::MissingChainInfo,
        ),
{
    match find_chain_info(res.chain_info, res.chain_id_here) {
        Some(ci) => Ok(ci),
        None => Err(XcaError::MissingChainInfo),
    }
}

impl Config {
    /// The configuration a new registry starts with: no chains.
    pub fn instantiate(msg: InstantiateMsg) -> (r: Config)
        ensures
            r.chain_id_here == msg.chain_id_here,
            r.x_account_code_id == msg.x_account_code_id,
            r.chain_info@ == Seq::<ChainInfo>::empty(),
            unique_ids(r.chain_info@),
    {
        Config {
            chain_id_here: msg.chain_id_here,
            x_account_code_id: msg.x_account_code_id,
            chain_info: Vec::new(),
        }
    }

    /// Replaces the account code id when one is given.
    pub fn update_config(&mut self, x_account_code_id: Option<u64>)
        ensures
            final(self).chain_id_here == old(self).chain_id_here,
            final(self).chain_info@ == old(self).chain_info@,
            final(self).x_account_code_id == match x_account_code_id {
                Some(c) => c,
                None => old(self).x_account_code_id,
            },
    {
        if let Some(c) = x_account_code_id {
            self.x_account_code_id = c;
        }
    }

    /// Adds `chain_info`, after taking out the first entry for the same chain.
    pub fn upsert_chain_info(&mut self, chain_info: ChainInfo)
        ensures
            final(self).chain_id_here == old(self).chain_id_here,
            final(self).x_account_code_id == old(self).x_account_code_id,
            final(self).chain_info@ == spec_upsert(old(self).chain_info@, chain_info),
            unique_ids(old(self).chain_info@) ==> unique_ids(final(self).chain_info@),
    {
        proof {
            if unique_ids(self.chain_info@) {
                lemma_upsert_keeps_unique(self.chain_info@, chain_info);
            }
        }
        let p = position(&self.chain_info, chain_info.wormhole_id);
        if p < self.chain_info.len() {
            self.chain_info.remove(p);
        }
        self.chain_info.push(chain_info);
    }

    /// Carries out a registry request.
    pub fn execute(&mut self, msg: ExecuteMsg)
        ensures
            final(self).chain_id_here == old(self).chain_id_here,
            msg matches ExecuteMsg::UpdateConfig { x_account_code_id } ==> {
                &&& final(self).chain_info@ == old(self).chain_info@
                &&& final(self).x_account_code_id == match x_account_code_id {
                    Some(c) => c,
                    None => old(self).x_account_code_id,
                }
            },
            msg matches ExecuteMsg::UpsertChainInfo { chain_info } ==> {
                &&& final(self).x_account_code_id == old(self).x_account_code_id
                &&& final(self).chain_info@ == spec_upsert(old(self).chain_info@, chain_info)
            },
            unique_ids(old(self).chain_info@) ==> unique_ids(final(self).chain_info@),
    {
        match msg {
            ExecuteMsg::UpdateConfig { x_account_code_id } => self.update_config(x_account_code_id),
            ExecuteMsg::UpsertChainInfo { chain_info } => self.upsert_chain_info(chain_info),
        }
    }

    /// The answer to a config query.
    pub fn query(self) -> (r: ConfigResponse)
        ensures
            r.chain_id_here == self.chain_id_here,
            r.x_account_code_id == self.x_account_code_id,
            r.chain_info@ == self.chain_info@,
    {
        ConfigResponse {
            chain_id_here: self.chain_id_here,
            x_account_code_id: self.x_account_code_id,
            chain_info: self.chain_info,
        }
    }
}

/// An upsert keeps chain ids unique.
pub proof fn lemma_upsert_keeps_unique(s: Seq<ChainInfo>, ci: ChainInfo)
    requires
        unique_ids(s),
    ensures
        unique_ids(spec_upsert(s, ci)),
{
    lemma_match_index(s, ci.wormhole_id);
    let p = match_index(s, ci.wormhole_id) as int;
    let t = spec_upsert(s, ci);
    if p < s.len() {
        let r = s.remove(p);
        assert forall|i: int, j: int|
            0 <= i < t.len() && 0 <= j < t.len() && i != j implies t[i].wormhole_id
            != t[j].wormhole_id by {
            if i < r.len() && j < r.len() {
                let oi = if i < p { i } else { i + 1 };
                let oj = if j < p { j } else { j + 1 };
                assert(r[i] == s[oi] && r[j] == s[oj]);
            } else if i < r.len() {
                let oi = if i < p { i } else { i + 1 };
                assert(r[i] == s[oi]);
                assert(oi != p);
            } else if j < r.len() {
                let oj = if j < p { j } else { j + 1 };
                assert(r[j] == s[oj]);
                assert(oj != p);
            }
        }
    } else {
        assert forall|i: int, j: int|
            0 <= i < t.len() && 0 <= j < t.len() && i != j implies t[i].wormhole_id
            != t[j].wormhole_id by {
            if i < s.len() && j < s.len() {
            } else if i < s.len() {
                assert(s[i].wormhole_id != ci.wormhole_id);
            } else if j < s.len() {
                assert(s[j].wormhole_id != ci.wormhole_id);
            }
        }
    }
}

/// After an upsert of `ci` into a registry without repeated chain ids, looking
/// up `ci`'s chain gives `ci`.
pub proof fn lemma_upsert_then_find(s: Seq<ChainInfo>, ci: ChainInfo)
    requires
        unique_ids(s),
    ensures
        spec_find(spec_upsert(s, ci), ci.wormhole_id) == Some(ci),
{
    let t = spec_upsert(s, ci);
    lemma_upsert_keeps_unique(s, ci);
    lemma_find_unique(t, ci.wormhole_id, t.len() - 1);
}

/// An upsert leaves the lookup of every other chain as it was.
pub proof fn lemma_upsert_other(s: Seq<ChainInfo>, ci: ChainInfo, id: u64)
    requires
        unique_ids(s),
        id != ci.wormhole_id,
    ensures
        spec_find(spec_upsert(s, ci), id) == spec_find(s, id),
{
    let t = spec_upsert(s, ci);
    lemma_upsert_keeps_unique(s, ci);
    lemma_match_index(s, ci.wormhole_id);
    lemma_match_index(s, id);
    lemma_match_index(t, id);
    let p = match_index(s, ci.wormhole_id) as int;
    let q = match_index(s, id) as int;
    if q < s.len() {
        // the entry for `id` survives the removal, at its index shifted past `p`
        let k = if p < s.len() && q > p { q - 1 } else { q };
        assert(q != p);
        if p < s.len() {
            assert(t[k] == s.remove(p)[k]);
        }
        assert(t[k] == s[q]);
        lemma_find_unique(t, id, k);
    } else {
        assert forall|j: int| 0 <= j < t.len() implies t[j].wormhole_id != id by {
            if j < t.len() - 1 {
                if p < s.len() {
                    let oj = if j < p { j } else { j + 1 };
                    assert(t[j] == s.remove(p)[j]);
                    assert(s.remove(p)[j] == s[oj]);
                }
            }
        }
        lemma_match_index_at(t, id, t.len() as int);
    }
}

/// Upserting the same entry twice is the same as upserting it once.
pub proof fn lemma_upsert_idempotent(s: Seq<ChainInfo>, ci: ChainInfo)
    requires
        unique_ids(s),
    ensures
        spec_upsert(spec_upsert(s, ci), ci) == spec_upsert(s, ci),
{
    let t = spec_upsert(s, ci);
    lemma_upsert_keeps_unique(s, ci);
    lemma_find_unique(t, ci.wormhole_id, t.len() - 1);
    assert(t.remove(t.len() - 1).push(ci) =~= t);
}

/// Where an upsert puts things, in a registry without repeated chain ids: the
/// new entry goes last; before it stand the old entries in their order, less the
/// one of the same chain when there was one.
pub proof fn lemma_upsert_shape(s: Seq<ChainInfo>, ci: ChainInfo)
    requires
        unique_ids(s),
    ensures
        spec_upsert(s, ci).len() >= 1,
        spec_upsert(s, ci).last() == ci,
        forall|k: int| 0 <= k < s.len() && s[k].wormhole_id == ci.wormhole_id
            ==> #[trigger] spec_upsert(s, ci).drop_last() == s.remove(k),
        (forall|k: int| 0 <= k < s.len() ==> s[k].wormhole_id != ci.wormhole_id)
            ==> spec_upsert(s, ci).drop_last() == s,
{
    lemma_match_index(s, ci.wormhole_id);
    let p = match_index(s, ci.wormhole_id);
    let t = spec_upsert(s, ci);
    assert(t.drop_last() == if p < s.len() { s.remove(p as int) } else { s });
    assert forall|k: int| 0 <= k < s.len() && s[k].wormhole_id == ci.wormhole_id
        implies #[trigger] spec_upsert(s, ci).drop_last() == s.remove(k) by {
        lemma_find_unique(s, ci.wormhole_id, k);
    }
    if forall|k: int| 0 <= k < s.len() ==> s[k].wormhole_id != ci.wormhole_id {
        if p < s.len() {
            assert(s[p as int].wormhole_id == ci.wormhole_id);
        }
    }
}

/// An upsert adds one entry when the chain is new, and keeps the count otherwise.
pub proof fn lemma_upsert_len(s: Seq<ChainInfo>, ci: ChainInfo)
    ensures
        spec_find(s, ci.wormhole_id) is None ==> spec_upsert(s, ci).len() == s.len() + 1,
        spec_find(s, ci.wormhole_id) is Some ==> spec_upsert(s, ci).len() == s.len(),
{
    lemma_match_index(s, ci.wormhole_id);
}

} // verus!
