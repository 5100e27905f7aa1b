use vstd::prelude::*;

use crate::pubkey::Pubkey;

verus! {

/// Blocked account identities.
/// Held as a vector with a set view: the verifier's specification of std's hash
/// collections proves nothing for a key of a struct type.
pub struct Denylist {
    keys: Vec<Pubkey>,
}

impl View for Denylist {
    type V = Set<Pubkey>;

    closed spec fn view(&self) -> Set<Pubkey> {
        self.keys@.to_set()
    }
}

impl Denylist {
    pub fn new(keys: Vec<Pubkey>) -> (r: Denylist)
        ensures
            r@ == keys@.to_set(),
    {
        Denylist { keys }
    }

    pub fn is_empty(&self) -> (r: bool)
        ensures
            r == (self@ == Set::<Pubkey>::empty()),
    {
        proof {
            if self.keys@.len() > 0 {
                assert(self@.contains(self.keys@[0]));
            }
        }
        assert(self.keys@.len() == 0 ==> self@ =~= Set::<Pubkey>::empty());
        self.keys.len() == 0
    }

    pub fn contains(&self, key: &Pubkey) -> (r: bool)
        ensures
            r == self@.contains(*key),
    {
        let mut i: usize = 0;
        while i < self.keys.len()
            invariant
                i <= self.keys@.len(),
                forall|j: int| 0 <= j < i ==> self.keys@[j] != *key,
            decreases self.keys.len() - i,
        {
            if self.keys[i] == *key {
                assert(self.keys@.contains(*key));
                return true;
            }
            i = i + 1;
        }
        false
    }
}

/// A compact account reference of a versioned transaction: positions in an address
/// lookup table.
pub struct TableLookup {
    pub account_key: Pubkey,
    pub writable_indexes: Vec<u8>,
    pub readonly_indexes: Vec<u8>,
}

/// The accounts that a decoded transaction names: its static keys (signers, writable
/// and readable accounts) and its lookup-table references.
pub struct TxAccounts {
    pub static_keys: Vec<Pubkey>,
    pub lookups: Vec<TableLookup>,
}

/// The address lookup tables known to the relayer, by table account. The map is held
/// opaquely: its allocator parameter is bounded by a trait of a crate that this library
/// does not name, so the map type itself cannot be declared.
#[verifier::external_body]
pub struct LookupTableCache {
    tables: hashbrown::HashMap<Pubkey, Vec<Pubkey>>,
}

/// What a lookup-table cache holds: the addresses of each known table.
pub uninterp spec fn lookup_tables(c: LookupTableCache) -> Map<Pubkey, Seq<Pubkey>>;

/// The map that results from inserting the pairs of `s` in order, later ones winning.
pub open spec fn table_map(s: Seq<(Pubkey, Vec<Pubkey>)>) -> Map<Pubkey, Seq<Pubkey>>
    decreases s.len(),
{
    if s.len() == 0 {
        Map::empty()
    } else {
        table_map(s.drop_last()).insert(s.last().0, s.last().1@)
    }
}

/// Relies on hashbrown's `HashMap::insert`: the key now maps to the new value.
#[verifier::external_body]
fn cache_insert(cache: &mut LookupTableCache, key: Pubkey, addresses: Vec<Pubkey>)
    ensures
        lookup_tables(*final(cache)) == lookup_tables(*old(cache)).insert(key, addresses@),
{
    cache.tables.insert(key, addresses);
}

impl LookupTableCache {
    /// Relies on hashbrown's `HashMap::new`: the map starts empty.
    #[verifier::external_body]
    fn empty() -> (r: LookupTableCache)
        ensures
            lookup_tables(r).is_empty(),
    {
        LookupTableCache { tables: hashbrown::HashMap::new() }
    }

    /// Relies on hashbrown's `HashMap::get`: the value stored under the key, if any.
    #[verifier::external_body]
    fn get(&self, key: &Pubkey) -> (r: Option<&Vec<Pubkey>>)
        ensures
            match r {
                Some(v) => lookup_tables(*self).contains_key(*key) && v@ == lookup_tables(*self)[*key],
                None => !lookup_tables(*self).contains_key(*key),
            },
    {
        self.tables.get(key)
    }

    /// A cache that holds the given tables; where a table occurs twice, the later wins.
    pub fn from_tables(tables: Vec<(Pubkey, Vec<Pubkey>)>) -> (r: LookupTableCache)
        ensures
            lookup_tables(r) == table_map(tables@),
    {
        let mut r = LookupTableCache::empty();
        let mut rest = tables;
        let ghost all = rest@;
        let mut i: usize = 0;
        let n = rest.len();
        assert(table_map(all.take(0)) =~= Map::empty());
        while i < n
            invariant
                n == all.len(),
                i <= n,
                rest@ == all.skip(i as int),
                lookup_tables(r) == table_map(all.take(i as int)),
            decreases n - i,
        {
            let (key, addresses) = rest.remove(0);
            proof {
                assert(all.take(i + 1).drop_last() =~= all.take(i as int));
                assert(rest@ =~= all.skip(i + 1));
            }
            cache_insert(&mut r, key, addresses);
            i = i + 1;
        }
        assert(all.take(n as int) =~= all);
        r
    }

    /// The addresses of table `key`, if the cache holds it.
    pub fn addresses(&self, key: &Pubkey) -> (r: Option<&Vec<Pubkey>>)
        ensures
            match r {
                Some(v) => lookup_tables(*self).contains_key(*key) && v@ == lookup_tables(*self)[*key],
                None => !lookup_tables(*self).contains_key(*key),
            },
    {
        self.get(key)
    }
}

/// Account `a` is reached through lookup `l`: `l`'s table is known and one of `l`'s
/// writable or readonly indexes points at `a` in it.
pub open spec fn lookup_resolves(l: TableLookup, tables: Map<Pubkey, Seq<Pubkey>>, a: Pubkey) -> bool {
    &&& tables.contains_key(l.account_key)
    &&& exists|idx: u8|
        (l.writable_indexes@.contains(idx) || l.readonly_indexes@.contains(idx))
            && (idx as int) < tables[l.account_key].len()
            && #[trigger] tables[l.account_key][idx as int] == a
}

/// The transaction names account `a`, directly or through a lookup table.
pub open spec fn tx_touches(tx: TxAccounts, tables: Map<Pubkey, Seq<Pubkey>>, a: Pubkey) -> bool {
    ||| tx.static_keys@.contains(a)
    ||| exists|j: int| 0 <= j < tx.lookups@.len() && lookup_resolves(#[trigger] tx.lookups@[j], tables, a)
}

/// The transaction names some blocked account.
pub open spec fn tx_denied(tx: TxAccounts, deny: Set<Pubkey>, tables: Map<Pubkey, Seq<Pubkey>>) -> bool {
    exists|a: Pubkey| deny.contains(a) && #[trigger] tx_touches(tx, tables, a)
}

/// Some index of `idxs` points at a blocked address of `addrs`.
fn indexes_hit(idxs: &Vec<u8>, addrs: &Vec<Pubkey>, deny: &Denylist) -> (r: bool)
    ensures
        r == exists|m: int|
            0 <= m < idxs@.len() && (idxs@[m] as int) < addrs@.len()
                && deny@.contains(addrs@[#[trigger] idxs@[m] as int]),
{
    let mut m: usize = 0;
    while m < idxs.len()
        invariant
            m <= idxs@.len(),
            forall|k: int|
                0 <= k < m && (idxs@[k] as int) < addrs@.len() ==> !deny@.contains(
                    addrs@[#[trigger] idxs@[k] as int],
                ),
        decreases idxs.len() - m,
    {
        let idx = idxs[m] as usize;
        if idx < addrs.len() && deny.contains(&addrs[idx]) {
            return true;
        }
        m = m + 1;
    }
    false
}

/// Some blocked account is reached through lookup `l`.
fn lookup_denied(l: &TableLookup, deny: &Denylist, tables: &LookupTableCache) -> (r: bool)
    ensures
        r == exists|a: Pubkey| deny@.contains(a) && #[trigger] lookup_resolves(*l, lookup_tables(*tables), a),
{
    let ghost t = lookup_tables(*tables);
    match tables.addresses(&l.account_key) {
        Some(addrs) => {
            let w = indexes_hit(&l.writable_indexes, addrs, deny);
            let ro = indexes_hit(&l.readonly_indexes, addrs, deny);
            proof {
                if w {
                    let m = choose|m: int|
                        0 <= m < l.writable_indexes@.len() && (l.writable_indexes@[m] as int) < addrs@.len()
                            && deny@.contains(addrs@[#[trigger] l.writable_indexes@[m] as int]);
                    let idx = l.writable_indexes@[m];
                    assert(l.writable_indexes@.contains(idx));
                    assert(lookup_resolves(*l, t, addrs@[idx as int]));
                } else if ro {
                    let m = choose|m: int|
                        0 <= m < l.readonly_indexes@.len() && (l.readonly_indexes@[m] as int) < addrs@.len()
                            && deny@.contains(addrs@[#[trigger] l.readonly_indexes@[m] as int]);
                    let idx = l.readonly_indexes@[m];
                    assert(l.readonly_indexes@.contains(idx));
                    assert(lookup_resolves(*l, t, addrs@[idx as int]));
                } else {
                    assert forall|a: Pubkey| deny@.contains(a) implies !#[trigger] lookup_resolves(*l, t, a) by {
                        if lookup_resolves(*l, t, a) {
                            let idx = choose|idx: u8|
                                (l.writable_indexes@.contains(idx) || l.readonly_indexes@.contains(idx))
                                    && (idx as int) < t[l.account_key].len()
                                    && #[trigger] t[l.account_key][idx as int] == a;
                            if l.writable_indexes@.contains(idx) {
                                let m = choose|m: int| 0 <= m < l.writable_indexes@.len() && l.writable_indexes@[m] == idx;
                                assert(deny@.contains(addrs@[l.writable_indexes@[m] as int]));
                            } else {
                                let m = choose|m: int| 0 <= m < l.readonly_indexes@.len() && l.readonly_indexes@[m] == idx;
                                assert(deny@.contains(addrs@[l.readonly_indexes@[m] as int]));
                            }
                        }
                    }
                }
            }
            w || ro
        },
        None => false,
    }
}

/// Whether the transaction names a blocked account, directly or through a known lookup
/// table.
pub fn is_tx_denied(tx: &TxAccounts, deny: &Denylist, tables: &LookupTableCache) -> (r: bool)
    ensures
        r == tx_denied(*tx, deny@, lookup_tables(*tables)),
{
    let ghost t = lookup_tables(*tables);
    let mut i: usize = 0;
    while i < tx.static_keys.len()
        invariant
            i <= tx.static_keys@.len(),
            t == lookup_tables(*tables),
            forall|j: int| 0 <= j < i ==> !deny@.contains(#[trigger] tx.static_keys@[j]),
        decreases tx.static_keys.len() - i,
    {
        if deny.contains(&tx.static_keys[i]) {
            assert(tx_touches(*tx, t, tx.static_keys@[i as int]));
            return true;
        }
        i = i + 1;
    }
    let mut j: usize = 0;
    while j < tx.lookups.len()
        invariant
            j <= tx.lookups@.len(),
            t == lookup_tables(*tables),
            forall|k: int| 0 <= k < tx.static_keys@.len() ==> !deny@.contains(#[trigger] tx.static_keys@[k]),
            forall|k: int, a: Pubkey|
                0 <= k < j && deny@.contains(a) ==> !#[trigger] lookup_resolves(tx.lookups@[k], t, a),
        decreases tx.lookups.len() - j,
    {
        if lookup_denied(&tx.lookups[j], deny, tables) {
            let ghost a = choose|a: Pubkey| deny@.contains(a) && #[trigger] lookup_resolves(tx.lookups@[j as int], t, a);
            assert(tx_touches(*tx, t, a));
            return true;
        }
        j = j + 1;
    }
    assert forall|a: Pubkey| deny@.contains(a) implies !#[trigger] tx_touches(*tx, t, a) by {
        if tx.static_keys@.contains(a) {
            let k = choose|k: int| 0 <= k < tx.static_keys@.len() && tx.static_keys@[k] == a;
            assert(!deny@.contains(tx.static_keys@[k]));
        }
    }
    false
}

} // verus!
