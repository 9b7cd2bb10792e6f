//! The cursor chain store: for each identity, the continuation cursors
//! found so far, one per upstream page, in page order.
//!
//! The chains are kept in a list, one slot per identity; a lookup walks the
//! list.

use vstd::prelude::*;
use crate::assoc::{
    assoc_map,
    distinct,
    lemma_assoc_empty,
    lemma_assoc_lookup,
    lemma_assoc_push,
    lemma_assoc_remove,
    lemma_assoc_update,
};
use crate::text::{clone_opt_string, str_eq};

verus! {

/// A chain of cursors as the contracts see it: entry `n - 1` is the cursor
/// that fetches upstream page `n`.
pub type Chain = Seq<Option<String>>;

/// A chain holds at least the entry of page 1, and that entry is "no
/// cursor": the stream starts there.
pub open spec fn chain_ok(chain: Chain) -> bool {
    chain.len() >= 1 && chain[0] is None
}

/// The chain that knows page 1 only.
pub open spec fn fresh_chain() -> Chain {
    seq![None]
}

/// The chain of `identity` in `chains`, or the fresh chain where it has none.
pub open spec fn chain_or_fresh(chains: Map<Seq<char>, Chain>, identity: Seq<char>) -> Chain {
    if chains.contains_key(identity) {
        chains[identity]
    } else {
        fresh_chain()
    }
}

/// What the store reports of a chain: how many pages it knows and the
/// cursor of the last of them; 0 and nothing where there is no chain.
pub open spec fn length_and_last_of(chains: Map<Seq<char>, Chain>, identity: Seq<char>) -> (
    nat,
    Option<String>,
) {
    if chains.contains_key(identity) && chains[identity].len() > 0 {
        (chains[identity].len(), chains[identity].last())
    } else {
        (0, None)
    }
}

/// The cursor that fetches upstream page `page` (counted from 1), if the
/// chain of `identity` has reached that page.
pub open spec fn cursor_for_page_of(
    chains: Map<Seq<char>, Chain>,
    identity: Seq<char>,
    page: int,
) -> Option<Option<String>> {
    if chains.contains_key(identity) && 1 <= page <= chains[identity].len() {
        Some(chains[identity][page - 1])
    } else {
        None
    }
}

/// The chains after upstream page `page_number` of `identity` came back
/// with the cursor `next`: the cursor is appended if there is one and the
/// page was the last that the chain knew. A reader that runs behind the
/// chain, or whose chain was dropped meanwhile, leaves it alone.
pub open spec fn chains_after_page(
    chains: Map<Seq<char>, Chain>,
    identity: Seq<char>,
    page_number: int,
    next: Option<String>,
) -> Map<Seq<char>, Chain> {
    if next is Some && chains.contains_key(identity) && chains[identity].len() == page_number {
        chains.insert(identity, chains[identity].push(next))
    } else {
        chains
    }
}

/// Chains only grow at their end. Whatever is appended or recorded, and for
/// whichever identity, every chain that was there is still there and
/// begins with what it was; and a chain that was [`chain_ok`] stays so.
pub proof fn law_chains_append_only(
    chains: Map<Seq<char>, Chain>,
    identity: Seq<char>,
    page_number: int,
    next: Option<String>,
    other: Seq<char>,
)
    requires
        chains.contains_key(other),
    ensures
        chains[other].is_prefix_of(
            chains.insert(identity, chain_or_fresh(chains, identity).push(next))[other],
        ),
        chains[other].is_prefix_of(chains.insert(identity, chain_or_fresh(chains, identity))[other]),
        chains_after_page(chains, identity, page_number, next).contains_key(other),
        chains[other].is_prefix_of(chains_after_page(chains, identity, page_number, next)[other]),
        chain_ok(chains[other]) ==> chain_ok(
            chains.insert(identity, chain_or_fresh(chains, identity).push(next))[other],
        ) && chain_ok(chains_after_page(chains, identity, page_number, next)[other]),
{
    let before = chains[other];
    assert(before.push(next).subrange(0, before.len() as int) =~= before);
    assert(before.subrange(0, before.len() as int) =~= before);
}

struct ChainSlot {
    identity: String,
    cursors: Vec<Option<String>>,
}

/// The chains of all identities.
pub struct CursorChainStore {
    slots: Vec<ChainSlot>,
}

impl View for CursorChainStore {
    type V = Map<Seq<char>, Chain>;

    /// The chain of each identity that has one.
    closed spec fn view(&self) -> Map<Seq<char>, Chain> {
        assoc_map(self.keys(), self.chains())
    }
}

impl CursorChainStore {
    closed spec fn keys(&self) -> Seq<Seq<char>> {
        Seq::new(self.slots.len() as nat, |i: int| self.slots[i].identity@)
    }

    closed spec fn chains(&self) -> Seq<Chain> {
        Seq::new(self.slots.len() as nat, |i: int| self.slots[i].cursors@)
    }

    /// The store's invariant: no identity has two chains, and every chain is
    /// [`chain_ok`].
    pub closed spec fn wf(&self) -> bool {
        &&& distinct(self.keys())
        &&& forall|i: int| 0 <= i < self.slots.len() ==> chain_ok(#[trigger] self.slots[i].cursors@)
    }

    /// In a well-formed store every chain starts with the entry of page 1,
    /// and its length fits in a `usize`.
    pub proof fn lemma_chains_ok(&self)
        requires
            self.wf(),
        ensures
            forall|identity: Seq<char>| #[trigger]
                self@.contains_key(identity) ==> chain_ok(self@[identity]) && self@[identity].len()
                    <= usize::MAX,
    {
        assert forall|identity: Seq<char>| #[trigger] self@.contains_key(identity) implies chain_ok(
            self@[identity],
        ) && self@[identity].len() <= usize::MAX by {
            let i = choose|i: int| 0 <= i < self.keys().len() && self.keys()[i] == identity;
            lemma_assoc_lookup(self.keys(), self.chains(), i);
            assert(chain_ok(self.slots[i].cursors@));
            assert(self.slots[i].cursors@.len() == self.slots[i].cursors.len());
        }
    }

    /// A store without chains.
    pub fn new() -> (r: Self)
        ensures
            r.wf(),
            r@ == Map::<Seq<char>, Chain>::empty(),
    {
        let r = CursorChainStore { slots: Vec::new() };
        proof {
            lemma_assoc_empty::<Seq<char>, Chain>();
            assert(r.keys() =~= Seq::<Seq<char>>::empty());
            assert(r.chains() =~= Seq::<Chain>::empty());
        }
        r
    }

    fn position(&self, identity: &str) -> (r: Option<usize>)
        requires
            self.wf(),
        ensures
            match r {
                Some(i) => {
                    &&& i < self.slots.len()
                    &&& self.slots[i as int].identity@ == identity@
                    &&& self@.contains_key(identity@)
                    &&& self@[identity@] == self.slots[i as int].cursors@
                },
                None => !self.keys().contains(identity@) && !self@.contains_key(identity@),
            },
    {
        let mut i: usize = 0;
        while i < self.slots.len()
            invariant
                i <= self.slots.len(),
                self.wf(),
                forall|j: int| 0 <= j < i ==> self.slots[j].identity@ != identity@,
            decreases self.slots.len() - i,
        {
            if str_eq(self.slots[i].identity.as_str(), identity) {
                proof {
                    assert(self.keys()[i as int] == identity@);
                    lemma_assoc_lookup(self.keys(), self.chains(), i as int);
                }
                return Some(i);
            }
            i = i + 1;
        }
        proof {
            if self.keys().contains(identity@) {
                let j = choose|j: int| 0 <= j < self.keys().len() && self.keys()[j] == identity@;
                assert(self.slots[j].identity@ == identity@);
            }
        }
        None
    }

    /// Gives `identity` the fresh chain unless it has a chain already.
    pub fn ensure_initialized(&mut self, identity: &str)
        requires
            old(self).wf(),
        ensures
            final(self).wf(),
            final(self)@ == old(self)@.insert(identity@, chain_or_fresh(old(self)@, identity@)),
            old(self)@.contains_key(identity@) ==> final(self)@ == old(self)@,
    {
        match self.position(identity) {
            Some(_) => {
                proof {
                    assert(self@.insert(identity@, self@[identity@]) =~= self@);
                }
            },
            None => {
                self.add_chain(identity.to_owned(), None);
            },
        }
    }

    /// Adds a chain for an identity that has none: the fresh chain, with
    /// one more entry behind it if `next` holds one.
    fn add_chain(&mut self, identity: String, next: Option<Option<String>>)
        requires
            old(self).wf(),
            !old(self).keys().contains(identity@),
        ensures
            final(self).wf(),
            final(self)@ == old(self)@.insert(
                identity@,
                match next {
                    Some(cursor) => fresh_chain().push(cursor),
                    None => fresh_chain(),
                },
            ),
    {
        let ghost keys = self.keys();
        let ghost chains = self.chains();
        let mut cursors: Vec<Option<String>> = Vec::new();
        cursors.push(None);
        match next {
            Some(cursor) => {
                cursors.push(cursor);
            },
            None => {},
        }
        let ghost chain = cursors@;
        proof {
            assert(chain =~= match next {
                Some(cursor) => fresh_chain().push(cursor),
                None => fresh_chain(),
            });
            lemma_assoc_push(keys, chains, identity@, chain);
        }
        self.slots.push(ChainSlot { identity, cursors });
        proof {
            assert(self.keys() =~= keys.push(identity@));
            assert(self.chains() =~= chains.push(chain));
        }
    }

    /// How many pages the chain of `identity` knows, and the cursor of the
    /// last of them; 0 and nothing where it has no chain.
    pub fn length_and_last(&self, identity: &str) -> (r: (usize, Option<String>))
        requires
            self.wf(),
        ensures
            (r.0 as nat, r.1) == length_and_last_of(self@, identity@),
    {
        match self.position(identity) {
            Some(i) => {
                let cursors = &self.slots[i].cursors;
                let n = cursors.len();
                proof {
                    assert(chain_ok(self.slots[i as int].cursors@));
                }
                (n, clone_opt_string(&cursors[n - 1]))
            },
            None => (0, None),
        }
    }

    /// The cursor that fetches upstream page `page` (counted from 1), if
    /// the chain of `identity` has reached that page.
    pub fn cursor_for_page(&self, identity: &str, page: usize) -> (r: Option<Option<String>>)
        requires
            self.wf(),
        ensures
            r == cursor_for_page_of(self@, identity@, page as int),
    {
        match self.position(identity) {
            Some(i) => {
                let cursors = &self.slots[i].cursors;
                if 1 <= page && page <= cursors.len() {
                    Some(clone_opt_string(&cursors[page - 1]))
                } else {
                    None
                }
            },
            None => None,
        }
    }

    /// Appends one entry to the chain of `identity`, which makes the next
    /// page known. An identity without a chain gets the fresh chain first.
    pub fn append_next(&mut self, identity: &str, cursor: Option<String>)
        requires
            old(self).wf(),
        ensures
            final(self).wf(),
            final(self)@ == old(self)@.insert(
                identity@,
                chain_or_fresh(old(self)@, identity@).push(cursor),
            ),
    {
        match self.position(identity) {
            Some(i) => {
                let ghost keys = self.keys();
                let ghost chains = self.chains();
                let ghost before = self.slots@;
                self.slots[i].cursors.push(cursor);
                proof {
                    assert(self.slots@.len() == before.len());
                    assert(forall|j: int|
                        0 <= j < before.len() && j != i ==> self.slots@[j] == before[j]);
                    assert(self.slots@[i as int].identity == before[i as int].identity);
                    assert(self.slots@[i as int].cursors@ == before[i as int].cursors@.push(
                        cursor,
                    ));
                    assert(self.keys() =~= keys);
                    assert(self.chains() =~= chains.update(
                        i as int,
                        chains[i as int].push(cursor),
                    ));
                    lemma_assoc_update(keys, chains, i as int, chains[i as int].push(cursor));
                    assert forall|j: int| 0 <= j < self.slots.len() implies chain_ok(
                        #[trigger] self.slots[j].cursors@,
                    ) by {
                        assert(chain_ok(before[j].cursors@));
                    }
                }
            },
            None => {
                self.add_chain(identity.to_owned(), Some(cursor));
            },
        }
    }

    /// Records the cursor that came back with upstream page `page_number`
    /// of `identity`: it goes onto the chain if the page was the chain's last.
    pub fn record_next(&mut self, identity: &str, page_number: usize, next: &Option<String>)
        requires
            old(self).wf(),
        ensures
            final(self).wf(),
            final(self)@ == chains_after_page(old(self)@, identity@, page_number as int, *next),
    {
        match next {
            Some(cursor) => {
                match self.position(identity) {
                    Some(i) => {
                        if self.slots[i].cursors.len() == page_number {
                            self.append_next(identity, Some(cursor.clone()));
                        }
                    },
                    None => {},
                }
            },
            None => {},
        }
    }

    /// Drops the chain of `identity`, if it has one.
    pub fn clear(&mut self, identity: &str)
        requires
            old(self).wf(),
        ensures
            final(self).wf(),
            final(self)@ == old(self)@.remove(identity@),
    {
        match self.position(identity) {
            Some(i) => {
                let ghost keys = self.keys();
                let ghost chains = self.chains();
                let ghost before = self.slots@;
                let _ = self.slots.remove(i);
                proof {
                    assert(self.slots@ == before.remove(i as int));
                    assert(self.keys() =~= keys.remove(i as int));
                    assert(self.chains() =~= chains.remove(i as int));
                    lemma_assoc_remove(keys, chains, i as int);
                    assert forall|j: int| 0 <= j < self.slots.len() implies chain_ok(
                        #[trigger] self.slots[j].cursors@,
                    ) by {
                        let j1 = if j < i {
                            j
                        } else {
                            j + 1
                        };
                        assert(self.slots[j] == before[j1]);
                        assert(chain_ok(before[j1].cursors@));
                    }
                }
            },
            None => {
                proof {
                    assert(self@.remove(identity@) =~= self@);
                }
            },
        }
    }
}

} // verus!
