//! Keyed counters: token balances (ordered by token type) and per-tag counts.

use vstd::prelude::*;

use crate::types::{token_key, CardTag, TokenAmount, TokenType};

verus! {

/// Every key of `s` is strictly smaller than every later key.
pub open spec fn keys_sorted(s: Seq<TokenAmount>) -> bool {
    forall|i: int, j: int|
        0 <= i < j < s.len() ==> token_key(#[trigger] s[i].token_type) < token_key(
            #[trigger] s[j].token_type,
        )
}

/// The map that an association list describes.
pub open spec fn seq_to_map(s: Seq<TokenAmount>) -> Map<TokenType, u32> {
    Map::new(
        |t: TokenType| exists|i: int| 0 <= i < s.len() && s[i].token_type == t,
        |t: TokenType| s[choose|i: int| 0 <= i < s.len() && s[i].token_type == t].amount,
    )
}

/// A balance, reading an absent token as zero.
pub open spec fn amount_of(m: Map<TokenType, u32>, t: TokenType) -> u32 {
    if m.contains_key(t) {
        m[t]
    } else {
        0
    }
}

pub proof fn lemma_sorted_lookup(s: Seq<TokenAmount>, i: int)
    requires
        keys_sorted(s),
        0 <= i < s.len(),
    ensures
        seq_to_map(s).contains_key(s[i].token_type),
        seq_to_map(s)[s[i].token_type] == s[i].amount,
{
    let t = s[i].token_type;
    assert(exists|k: int| 0 <= k < s.len() && s[k].token_type == t);
    let k = choose|k: int| 0 <= k < s.len() && s[k].token_type == t;
    if k != i {
        if k < i {
            assert(token_key(s[k].token_type) < token_key(s[i].token_type));
        } else {
            assert(token_key(s[i].token_type) < token_key(s[k].token_type));
        }
    }
}

/// Two sorted association lists that describe the same map are the same list.
pub proof fn lemma_sorted_canonical(s1: Seq<TokenAmount>, s2: Seq<TokenAmount>)
    requires
        keys_sorted(s1),
        keys_sorted(s2),
        seq_to_map(s1) == seq_to_map(s2),
    ensures
        s1 == s2,
{
    let n = if s1.len() < s2.len() {
        s1.len()
    } else {
        s2.len()
    };
    assert forall|i: int| 0 <= i < n implies s1[i] == s2[i] by {
        lemma_prefix_equal(s1, s2, i);
    }
    lemma_longer_tail(s1, s2);
    lemma_longer_tail(s2, s1);
    assert(s1 =~= s2);
}

proof fn lemma_prefix_equal(s1: Seq<TokenAmount>, s2: Seq<TokenAmount>, i: int)
    requires
        keys_sorted(s1),
        keys_sorted(s2),
        seq_to_map(s1) == seq_to_map(s2),
        0 <= i < s1.len(),
        i < s2.len(),
    ensures
        s1[i] == s2[i],
    decreases i,
{
    if i > 0 {
        lemma_prefix_equal(s1, s2, i - 1);
    }
    assert forall|j: int| 0 <= j < i implies s1[j] == s2[j] by {
        if j < i - 1 {
            lemma_prefix_equal(s1, s2, j);
        }
    }
    let t1 = s1[i].token_type;
    let t2 = s2[i].token_type;
    lemma_sorted_lookup(s1, i);
    lemma_sorted_lookup(s2, i);
    // t1 occurs in s2 at some index
    assert(seq_to_map(s2).contains_key(t1));
    let k2 = choose|k: int| 0 <= k < s2.len() && s2[k].token_type == t1;
    assert(seq_to_map(s1).contains_key(t2));
    let k1 = choose|k: int| 0 <= k < s1.len() && s1[k].token_type == t2;
    if k2 < i {
        assert(s1[k2] == s2[k2]);
        assert(token_key(s1[k2].token_type) < token_key(s1[i].token_type));
    }
    if k1 < i {
        assert(s1[k1] == s2[k1]);
        assert(token_key(s2[k1].token_type) < token_key(s2[i].token_type));
    }
    if k2 > i {
        assert(token_key(s2[i].token_type) < token_key(s2[k2].token_type));
        if k1 > i {
            assert(token_key(s1[i].token_type) < token_key(s1[k1].token_type));
        }
    }
    assert(t1 == t2);
    lemma_sorted_lookup(s1, i);
    lemma_sorted_lookup(s2, i);
}

proof fn lemma_longer_tail(a: Seq<TokenAmount>, b: Seq<TokenAmount>)
    requires
        keys_sorted(a),
        keys_sorted(b),
        seq_to_map(a) == seq_to_map(b),
        forall|i: int| 0 <= i < a.len() && i < b.len() ==> a[i] == b[i],
    ensures
        a.len() >= b.len(),
{
    if a.len() < b.len() {
        let n = a.len() as int;
        let t = b[n].token_type;
        lemma_sorted_lookup(b, n);
        assert(seq_to_map(a).contains_key(t));
        let k = choose|k: int| 0 <= k < a.len() && a[k].token_type == t;
        assert(a[k] == b[k]);
        assert(token_key(b[k].token_type) < token_key(b[n].token_type));
    }
}

/// Token balances as an association list kept sorted by token type.
pub struct TokenBalances {
    entries: Vec<TokenAmount>,
}

impl View for TokenBalances {
    type V = Map<TokenType, u32>;

    closed spec fn view(&self) -> Map<TokenType, u32> {
        seq_to_map(self.entries@)
    }
}

impl TokenBalances {
    /// The balances listed in token-type order.
    pub closed spec fn listing(&self) -> Seq<TokenAmount> {
        self.entries@
    }

    pub closed spec fn wf(&self) -> bool {
        keys_sorted(self.entries@)
    }

    /// The listing is sorted and describes exactly the balances.
    pub proof fn lemma_listing(&self)
        requires
            self.wf(),
        ensures
            keys_sorted(self.listing()),
            seq_to_map(self.listing()) == self@,
    {
    }

    pub fn new() -> (r: Self)
        ensures
            r.wf(),
            r@ == Map::<TokenType, u32>::empty(),
    {
        let r = TokenBalances { entries: Vec::new() };
        assert(r@ =~= Map::<TokenType, u32>::empty());
        r
    }

    /// Where `t` sits: `Ok(i)` when present at index `i`, else `Err(p)` with
    /// `p` the position that keeps the list sorted.
    fn search(&self, t: TokenType) -> (r: Result<usize, usize>)
        requires
            self.wf(),
        ensures
            r matches Ok(i) ==> i < self.entries@.len() && self.entries@[i as int].token_type == t,
            r matches Err(p) ==> p <= self.entries@.len() && (forall|j: int|
                0 <= j < p ==> token_key(self.entries@[j].token_type) < token_key(t)) && (forall|
                j: int,
            |
                p <= j < self.entries@.len() ==> token_key(t) < token_key(
                    self.entries@[j].token_type,
                )),
    {
        let key = t.sort_key();
        let mut i: usize = 0;
        while i < self.entries.len()
            invariant
                self.wf(),
                i <= self.entries@.len(),
                key == token_key(t),
                forall|j: int| 0 <= j < i ==> token_key(self.entries@[j].token_type) < token_key(t),
            decreases self.entries.len() - i,
        {
            let k = self.entries[i].token_type.sort_key();
            if k == key {
                proof {
                    crate::types::lemma_token_key_injective(self.entries@[i as int].token_type, t);
                }
                return Ok(i);
            }
            if k > key {
                assert forall|j: int| i <= j < self.entries@.len() implies token_key(t) < token_key(
                    self.entries@[j].token_type,
                ) by {
                    if j > i {
                        assert(token_key(self.entries@[i as int].token_type) < token_key(
                            self.entries@[j].token_type,
                        ));
                    }
                }
                return Err(i);
            }
            i = i + 1;
        }
        Err(i)
    }

    /// The balance of `t` (zero when absent).
    pub fn get(&self, t: TokenType) -> (r: u32)
        requires
            self.wf(),
        ensures
            r == amount_of(self@, t),
    {
        match self.search(t) {
            Ok(i) => {
                proof {
                    lemma_sorted_lookup(self.entries@, i as int);
                }
                self.entries[i].amount
            },
            Err(_) => {
                proof {
                    assert(!self@.contains_key(t)) by {
                        if self@.contains_key(t) {
                            let k = choose|k: int|
                                0 <= k < self.entries@.len() && self.entries@[k].token_type == t;
                        }
                    }
                }
                0
            },
        }
    }

    /// Whether `t` has an entry (possibly zero).
    pub fn contains(&self, t: TokenType) -> (r: bool)
        requires
            self.wf(),
        ensures
            r == self@.contains_key(t),
    {
        match self.search(t) {
            Ok(i) => {
                proof {
                    lemma_sorted_lookup(self.entries@, i as int);
                }
                true
            },
            Err(_) => {
                proof {
                    if self@.contains_key(t) {
                        let k = choose|k: int|
                            0 <= k < self.entries@.len() && self.entries@[k].token_type == t;
                    }
                }
                false
            },
        }
    }

    /// Sets the balance of `t` to `v`.
    pub fn set(&mut self, t: TokenType, v: u32)
        requires
            old(self).wf(),
        ensures
            final(self).wf(),
            final(self)@ == old(self)@.insert(t, v),
    {
        let ghost old_s = self.entries@;
        match self.search(t) {
            Ok(i) => {
                self.entries.set(i, TokenAmount { token_type: t, amount: v });
                proof {
                    let s = self.entries@;
                    assert(keys_sorted(s)) by {
                        assert forall|a: int, b: int| 0 <= a < b < s.len() implies token_key(
                            #[trigger] s[a].token_type,
                        ) < token_key(#[trigger] s[b].token_type) by {
                            assert(token_key(old_s[a].token_type) < token_key(old_s[b].token_type));
                        }
                    }
                    lemma_update_map(old_s, i as int, v);
                }
            },
            Err(p) => {
                self.entries.insert(p, TokenAmount { token_type: t, amount: v });
                proof {
                    let s = self.entries@;
                    assert(s =~= old_s.insert(p as int, TokenAmount { token_type: t, amount: v }));
                    assert(keys_sorted(s)) by {
                        assert forall|a: int, b: int| 0 <= a < b < s.len() implies token_key(
                            #[trigger] s[a].token_type,
                        ) < token_key(#[trigger] s[b].token_type) by {
                            if b < p {
                                assert(token_key(old_s[a].token_type) < token_key(
                                    old_s[b].token_type,
                                ));
                            } else if b == p {
                            } else if a < p {
                                assert(s[b] == old_s[b - 1]);
                            } else if a == p {
                                assert(s[b] == old_s[b - 1]);
                            } else {
                                assert(token_key(old_s[a - 1].token_type) < token_key(
                                    old_s[b - 1].token_type,
                                ));
                            }
                        }
                    }
                    lemma_insert_map(old_s, p as int, t, v);
                }
            },
        }
    }

    /// Adds `amount` to the balance of `t`, creating the entry if needed.
    pub fn add(&mut self, t: TokenType, amount: u32)
        requires
            old(self).wf(),
            amount_of(old(self)@, t) + amount <= u32::MAX,
        ensures
            final(self).wf(),
            final(self)@ == old(self)@.insert(t, (amount_of(old(self)@, t) + amount) as u32),
    {
        let cur = self.get(t);
        self.set(t, cur + amount);
    }

    /// Subtracts `amount` from the balance of `t`, stopping at zero, and
    /// creating the entry if needed.
    pub fn remove_saturating(&mut self, t: TokenType, amount: u32)
        requires
            old(self).wf(),
        ensures
            final(self).wf(),
            final(self)@ == old(self)@.insert(
                t,
                if amount_of(old(self)@, t) >= amount {
                    (amount_of(old(self)@, t) - amount) as u32
                } else {
                    0u32
                },
            ),
    {
        let cur = self.get(t);
        self.set(t, cur.saturating_sub(amount));
    }

    /// The balances in token-type order.
    pub fn entries(&self) -> (r: &Vec<TokenAmount>)
        ensures
            r@ == self.listing(),
    {
        &self.entries
    }

    /// An independent copy of these balances.
    pub fn duplicate(&self) -> (r: Self)
        ensures
            r@ == self@,
            r.listing() == self.listing(),
            r.wf() == self.wf(),
    {
        TokenBalances { entries: crate::types::copy_vec(&self.entries) }
    }
}

/// Where a key not in `s` goes to keep `s` sorted: after every smaller key.
pub open spec fn insert_pos(s: Seq<TokenAmount>, key: int) -> int
    decreases s.len(),
{
    if s.len() == 0 {
        0
    } else if token_key(s.last().token_type) < key {
        s.len() as int
    } else {
        insert_pos(s.drop_last(), key)
    }
}

proof fn lemma_insert_pos(s: Seq<TokenAmount>, t: TokenType)
    requires
        keys_sorted(s),
        forall|i: int| 0 <= i < s.len() ==> s[i].token_type != t,
    ensures
        0 <= insert_pos(s, token_key(t)) <= s.len(),
        forall|i: int| 0 <= i < insert_pos(s, token_key(t)) ==> token_key(s[i].token_type) < token_key(t),
        forall|i: int|
            insert_pos(s, token_key(t)) <= i < s.len() ==> token_key(s[i].token_type) > token_key(t),
    decreases s.len(),
{
    if s.len() > 0 {
        let l = s.last();
        crate::types::lemma_token_key_injective(l.token_type, t);
        if token_key(l.token_type) < token_key(t) {
            assert forall|i: int| 0 <= i < s.len() implies token_key(s[i].token_type) < token_key(t) by {
                if i < s.len() - 1 {
                    assert(token_key(s[i].token_type) < token_key(s[s.len() - 1].token_type));
                }
            }
        } else {
            let d = s.drop_last();
            assert(keys_sorted(d)) by {
                assert forall|a: int, b: int| 0 <= a < b < d.len() implies token_key(
                    #[trigger] d[a].token_type,
                ) < token_key(#[trigger] d[b].token_type) by {
                    assert(token_key(s[a].token_type) < token_key(s[b].token_type));
                }
            }
            lemma_insert_pos(d, t);
            assert forall|i: int| 0 <= i < insert_pos(s, token_key(t)) implies token_key(s[i].token_type)
                < token_key(t) by {
                assert(s[i] == d[i]);
            }
            assert forall|i: int|
                insert_pos(s, token_key(t)) <= i < s.len() implies token_key(s[i].token_type) > token_key(t) by {
                if i < s.len() - 1 {
                    assert(s[i] == d[i]);
                }
            }
        }
    }
}

/// Every finite map of balances has a sorted association list.
pub proof fn lemma_sorted_list_exists(m: Map<TokenType, u32>)
    requires
        m.dom().finite(),
    ensures
        exists|s: Seq<TokenAmount>| keys_sorted(s) && seq_to_map(s) == m,
    decreases m.dom().len(),
{
    if m.dom().len() == 0 {
        let s = Seq::<TokenAmount>::empty();
        assert(m.dom() =~= Set::empty()) by {
            if exists|t: TokenType| m.dom().contains(t) {
                let t = choose|t: TokenType| m.dom().contains(t);
                assert(m.dom().remove(t).len() < m.dom().len());
            }
        }
        assert(seq_to_map(s) =~= m);
    } else {
        let k = m.dom().choose();
        let m1 = m.remove(k);
        assert(m1.dom() =~= m.dom().remove(k));
        lemma_sorted_list_exists(m1);
        let s1 = choose|s: Seq<TokenAmount>| keys_sorted(s) && seq_to_map(s) == m1;
        assert forall|i: int| 0 <= i < s1.len() implies s1[i].token_type != k by {
            if s1[i].token_type == k {
                assert(seq_to_map(s1).contains_key(k));
            }
        }
        lemma_insert_pos(s1, k);
        let p = insert_pos(s1, token_key(k));
        let e = TokenAmount { token_type: k, amount: m[k] };
        let s = s1.insert(p, e);
        assert(keys_sorted(s)) by {
            assert forall|a: int, b: int| 0 <= a < b < s.len() implies token_key(
                #[trigger] s[a].token_type,
            ) < token_key(#[trigger] s[b].token_type) by {
                if a < p && b < p {
                    assert(token_key(s1[a].token_type) < token_key(s1[b].token_type));
                } else if a < p && b > p {
                    assert(s[b] == s1[b - 1]);
                } else if a > p {
                    assert(s[a] == s1[a - 1]);
                    assert(s[b] == s1[b - 1]);
                    assert(token_key(s1[a - 1].token_type) < token_key(s1[b - 1].token_type));
                } else if a == p {
                    assert(s[b] == s1[b - 1]);
                }
            }
        }
        lemma_insert_map(s1, p, k, m[k]);
        assert(m1.insert(k, m[k]) =~= m);
    }
}

proof fn lemma_update_map(s: Seq<TokenAmount>, i: int, v: u32)
    requires
        keys_sorted(s),
        0 <= i < s.len(),
    ensures
        seq_to_map(s.update(i, TokenAmount { token_type: s[i].token_type, amount: v }))
            == seq_to_map(s).insert(s[i].token_type, v),
{
    let t = s[i].token_type;
    let s2 = s.update(i, TokenAmount { token_type: t, amount: v });
    let m1 = seq_to_map(s2);
    let m2 = seq_to_map(s).insert(t, v);
    assert(keys_sorted(s2)) by {
        assert forall|a: int, b: int| 0 <= a < b < s2.len() implies token_key(
            #[trigger] s2[a].token_type,
        ) < token_key(#[trigger] s2[b].token_type) by {
            assert(token_key(s[a].token_type) < token_key(s[b].token_type));
        }
    }
    assert forall|u: TokenType| m1.contains_key(u) <==> m2.contains_key(u) by {
        if u == t {
            assert(s2[i].token_type == t);
            assert(s[i].token_type == t);
        }
        if m2.contains_key(u) && u != t {
            let k = choose|k: int| 0 <= k < s.len() && s[k].token_type == u;
            assert(s2[k].token_type == u);
        }
        if m1.contains_key(u) {
            let k = choose|k: int| 0 <= k < s2.len() && s2[k].token_type == u;
            if u != t {
                assert(s[k].token_type == u);
            }
        }
    }
    assert forall|u: TokenType| m1.contains_key(u) implies m1[u] == m2[u] by {
        let k = choose|k: int| 0 <= k < s2.len() && s2[k].token_type == u;
        lemma_sorted_lookup(s2, k);
        if u != t {
            lemma_sorted_lookup(s, k);
        } else {
            lemma_sorted_lookup(s2, i);
        }
    }
    assert(m1 =~= m2);
}

proof fn lemma_insert_map(s: Seq<TokenAmount>, p: int, t: TokenType, v: u32)
    requires
        keys_sorted(s.insert(p, TokenAmount { token_type: t, amount: v })),
        0 <= p <= s.len(),
    ensures
        seq_to_map(s.insert(p, TokenAmount { token_type: t, amount: v })) == seq_to_map(s).insert(
            t,
            v,
        ),
{
    let s2 = s.insert(p, TokenAmount { token_type: t, amount: v });
    let m1 = seq_to_map(s2);
    let m2 = seq_to_map(s).insert(t, v);
    assert forall|k: int| 0 <= k < s.len() implies #[trigger] s[k] == s2[if k < p {
        k
    } else {
        k + 1
    }] by {}
    assert forall|u: TokenType| m1.contains_key(u) <==> m2.contains_key(u) by {
        if m2.contains_key(u) && u != t {
            let k = choose|k: int| 0 <= k < s.len() && s[k].token_type == u;
            let k2 = if k < p {
                k
            } else {
                k + 1
            };
            assert(s2[k2].token_type == u);
        }
        if u == t {
            assert(s2[p].token_type == t);
        }
        if m1.contains_key(u) && u != t {
            let k = choose|k: int| 0 <= k < s2.len() && s2[k].token_type == u;
            if k < p {
                assert(s[k].token_type == u);
            } else if k > p {
                assert(s[k - 1].token_type == u);
            }
        }
    }
    assert forall|u: TokenType| m1.contains_key(u) implies m1[u] == m2[u] by {
        let k = choose|k: int| 0 <= k < s2.len() && s2[k].token_type == u;
        lemma_sorted_lookup(s2, k);
        if u != t {
            let k0 = if k < p {
                k
            } else {
                k - 1
            };
            assert(s[k0] == s2[k]);
            assert(keys_sorted(s)) by {
                assert forall|a: int, b: int| 0 <= a < b < s.len() implies token_key(
                    #[trigger] s[a].token_type,
                ) < token_key(#[trigger] s[b].token_type) by {
                    let a2 = if a < p {
                        a
                    } else {
                        a + 1
                    };
                    let b2 = if b < p {
                        b
                    } else {
                        b + 1
                    };
                    assert(s[a] == s2[a2]);
                    assert(s[b] == s2[b2]);
                }
            }
            lemma_sorted_lookup(s, k0);
        } else {
            lemma_sorted_lookup(s2, p);
        }
    }
    assert(m1 =~= m2);
}

// ---------------------------------------------------------------------------
// Per-tag counters
// ---------------------------------------------------------------------------

/// A count of how many cards with a specific tag have been played.
#[derive(Clone, Copy, Debug, PartialEq, Eq, Structural)]
pub struct CardTagCount {
    pub tag: CardTag,
    pub count: u32,
}

/// Position of a tag when tags are ordered by name.
pub open spec fn tag_slot(tag: CardTag) -> int {
    match tag {
        CardTag::Production => 0,
        CardTag::QualityControl => 1,
        CardTag::SystemAdjustment => 2,
        CardTag::Transformation => 3,
    }
}

pub open spec fn slot_tag(i: int) -> CardTag {
    if i == 0 {
        CardTag::Production
    } else if i == 1 {
        CardTag::QualityControl
    } else if i == 2 {
        CardTag::SystemAdjustment
    } else {
        CardTag::Transformation
    }
}

fn tag_slot_exec(tag: CardTag) -> (r: usize)
    ensures
        r == tag_slot(tag),
{
    match tag {
        CardTag::Production => 0,
        CardTag::QualityControl => 1,
        CardTag::SystemAdjustment => 2,
        CardTag::Transformation => 3,
    }
}

/// Per-tag counters; a tag is present once it has been counted.
pub struct TagCounts {
    slots: Vec<Option<u32>>,
}

pub open spec fn tag_count_of(m: Map<CardTag, u32>, tag: CardTag) -> u32 {
    if m.contains_key(tag) {
        m[tag]
    } else {
        0
    }
}

/// The entries of a tag map, ordered by tag name.
pub open spec fn tag_listing(m: Map<CardTag, u32>) -> Seq<CardTagCount> {
    Seq::new(4, |i: int| slot_tag(i)).filter(|t: CardTag| m.contains_key(t)).map_values(
        |t: CardTag| CardTagCount { tag: t, count: m[t] },
    )
}

impl View for TagCounts {
    type V = Map<CardTag, u32>;

    closed spec fn view(&self) -> Map<CardTag, u32> {
        Map::new(
            |t: CardTag| self.slots@[tag_slot(t)] is Some,
            |t: CardTag| self.slots@[tag_slot(t)]->Some_0,
        )
    }
}

impl TagCounts {
    pub closed spec fn wf(&self) -> bool {
        self.slots@.len() == 4
    }

    pub fn new() -> (r: Self)
        ensures
            r.wf(),
            r@ == Map::<CardTag, u32>::empty(),
    {
        let mut slots: Vec<Option<u32>> = Vec::new();
        slots.push(None);
        slots.push(None);
        slots.push(None);
        slots.push(None);
        let r = TagCounts { slots };
        assert(r@ =~= Map::<CardTag, u32>::empty());
        r
    }

    /// The count for `tag` (zero when absent).
    pub fn get(&self, tag: CardTag) -> (r: u32)
        requires
            self.wf(),
        ensures
            r == tag_count_of(self@, tag),
    {
        match self.slots[tag_slot_exec(tag)] {
            Some(c) => c,
            None => 0,
        }
    }

    /// The count for `tag`, or `None` when the tag was never counted.
    pub fn lookup(&self, tag: CardTag) -> (r: Option<u32>)
        requires
            self.wf(),
        ensures
            r == (if self@.contains_key(tag) {
                Some(self@[tag])
            } else {
                None
            }),
    {
        self.slots[tag_slot_exec(tag)]
    }

    /// Counts one more card with `tag`.
    pub fn increment(&mut self, tag: CardTag)
        requires
            old(self).wf(),
            tag_count_of(old(self)@, tag) < u32::MAX,
        ensures
            final(self).wf(),
            final(self)@ == old(self)@.insert(tag, (tag_count_of(old(self)@, tag) + 1) as u32),
    {
        let c = self.get(tag);
        let idx = tag_slot_exec(tag);
        self.slots.set(idx, Some(c + 1));
        assert(self@ =~= old(self)@.insert(tag, (tag_count_of(old(self)@, tag) + 1) as u32));
    }

    /// Forgets all counts.
    pub fn clear(&mut self)
        ensures
            final(self).wf(),
            final(self)@ == Map::<CardTag, u32>::empty(),
    {
        *self = TagCounts::new();
    }

    /// The counted tags with their counts, ordered by tag name.
    pub fn listing(&self) -> (r: Vec<CardTagCount>)
        requires
            self.wf(),
        ensures
            r@ == tag_listing(self@),
    {
        let mut r: Vec<CardTagCount> = Vec::new();
        let ghost all = Seq::new(4, |i: int| slot_tag(i));
        let ghost m = self@;
        let mut i: usize = 0;
        while i < 4
            invariant
                self.wf(),
                i <= 4,
                m == self@,
                all == Seq::new(4, |i: int| slot_tag(i)),
                r@ == all.take(i as int).filter(|t: CardTag| m.contains_key(t)).map_values(
                    |t: CardTag| CardTagCount { tag: t, count: m[t] },
                ),
            decreases 4 - i,
        {
            let tag = if i == 0 {
                CardTag::Production
            } else if i == 1 {
                CardTag::QualityControl
            } else if i == 2 {
                CardTag::SystemAdjustment
            } else {
                CardTag::Transformation
            };
            assert(tag == all[i as int]);
            assert(tag_slot(tag) == i);
            proof {
                let f = |t: CardTag| m.contains_key(t);
                assert(all.take(i + 1) =~= all.take(i as int).push(tag));
                reveal(Seq::filter);
                assert(all.take(i + 1).filter(f) == all.take(i as int).filter(f).push(tag)
                    || all.take(i + 1).filter(f) == all.take(i as int).filter(f)) by {
                    assert(all.take(i + 1).drop_last() =~= all.take(i as int));
                }
            }
            match self.slots[i] {
                Some(c) => {
                    r.push(CardTagCount { tag, count: c });
                    proof {
                        let f = |t: CardTag| m.contains_key(t);
                        assert(all.take(i + 1).drop_last() =~= all.take(i as int));
                        assert(m.contains_key(tag));
                        assert(all.take(i + 1).filter(f) == all.take(i as int).filter(f).push(tag));
                        assert(r@ =~= all.take(i + 1).filter(f).map_values(
                            |t: CardTag| CardTagCount { tag: t, count: m[t] },
                        ));
                    }
                },
                None => {
                    proof {
                        let f = |t: CardTag| m.contains_key(t);
                        assert(all.take(i + 1).drop_last() =~= all.take(i as int));
                        assert(!m.contains_key(tag));
                        assert(all.take(i + 1).filter(f) == all.take(i as int).filter(f));
                    }
                },
            }
            i = i + 1;
        }
        assert(all.take(4) =~= all);
        r
    }
}

} // verus!
