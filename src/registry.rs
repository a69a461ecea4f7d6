use vstd::prelude::*;

use crate::table::{string_views, Table};
use crate::text::{lower_of, lowercase};

verus! {

/// A connection is named by a number that the transport layer hands out.
pub type ConnId = u64;

/// The session registry: each normalized identity that completed the handshake,
/// with the connection that delivers to it.
pub struct Registry {
    table: Table<ConnId>,
}

impl View for Registry {
    type V = Map<Seq<char>, ConnId>;

    closed spec fn view(&self) -> Map<Seq<char>, ConnId> {
        self.table@
    }
}

impl Registry {
    pub closed spec fn wf(&self) -> bool {
        self.table.wf()
    }

    pub fn new() -> (r: Registry)
        ensures
            r.wf(),
            r@ == Map::<Seq<char>, ConnId>::empty(),
    {
        Registry { table: Table::new() }
    }

    /// Admits a participant: the identity is normalized to lower case and bound to
    /// `conn`, replacing any earlier entry of the same normalized identity.
    /// Returns the normalized identity.
    pub fn register(&mut self, identity: &str, conn: ConnId) -> (r: String)
        requires
            old(self).wf(),
        ensures
            final(self).wf(),
            r@ == lower_of(identity@),
            final(self)@ == old(self)@.insert(lower_of(identity@), conn),
    {
        let key = lowercase(identity);
        let r = key.clone();
        self.table.insert(key, conn);
        r
    }

    /// Removes the entry of a normalized identity, if there is one.
    pub fn remove(&mut self, identity: &str)
        requires
            old(self).wf(),
        ensures
            final(self).wf(),
            final(self)@ == old(self)@.remove(identity@),
    {
        self.table.remove(identity);
    }

    /// Removes the entry of a normalized identity only where it still belongs to
    /// `conn`: a connection displaced by a later admission of the same identity
    /// leaves its successor's entry in place.
    pub fn release(&mut self, identity: &str, conn: ConnId)
        requires
            old(self).wf(),
        ensures
            final(self).wf(),
            final(self)@ == (if old(self)@.contains_key(identity@) && old(self)@[identity@] == conn {
                old(self)@.remove(identity@)
            } else {
                old(self)@
            }),
    {
        if self.lookup(identity) == Some(conn) {
            self.remove(identity);
        }
    }

    /// The connection registered under a normalized identity.
    pub fn lookup(&self, identity: &str) -> (r: Option<ConnId>)
        requires
            self.wf(),
        ensures
            r == (if self@.contains_key(identity@) {
                Some(self@[identity@])
            } else {
                None::<ConnId>
            }),
    {
        match self.table.get(identity) {
            Some(c) => Some(*c),
            None => None,
        }
    }

    /// A presence snapshot: the identities now registered, each exactly once.
    pub fn online(&self) -> (r: Vec<String>)
        requires
            self.wf(),
        ensures
            string_views(r@).no_duplicates(),
            string_views(r@).to_set() == self@.dom(),
    {
        self.table.keys()
    }

    /// Every connection now registered, one for each identity: the result lines
    /// up with a list of the registered identities, each listed once.
    pub fn connections(&self) -> (r: Vec<ConnId>)
        requires
            self.wf(),
        ensures
            r@.len() == self@.dom().len(),
            forall|c: ConnId|
                r@.contains(c) <==> exists|k: Seq<char>| #[trigger]
                    self@.contains_key(k) && self@[k] == c,
            exists|ks: Seq<Seq<char>>|
                #![trigger ks.to_set()]
                ks.len() == r@.len() && ks.no_duplicates() && ks.to_set() == self@.dom() && forall|
                    i: int,
                | 0 <= i < r@.len() ==> self@[#[trigger] ks[i]] == r@[i],
    {
        self.table.values()
    }
}

/// The registry after admitting `ids[0]`, `ids[1]`, ... in turn, `ids[i]` on
/// connection `conns[i]`, starting from `start`.
pub open spec fn registered_after(
    start: Map<Seq<char>, ConnId>,
    ids: Seq<Seq<char>>,
    conns: Seq<ConnId>,
) -> Map<Seq<char>, ConnId>
    decreases ids.len(),
{
    if ids.len() == 0 {
        start
    } else {
        registered_after(start, ids.drop_last(), conns).insert(lower_of(ids.last()), conns[ids.len() - 1])
    }
}

pub open spec fn normalized(ids: Seq<Seq<char>>) -> Seq<Seq<char>> {
    ids.map_values(|s: Seq<char>| lower_of(s))
}

proof fn lemma_registered_dom(ids: Seq<Seq<char>>, conns: Seq<ConnId>)
    ensures
        registered_after(Map::empty(), ids, conns).dom() == normalized(ids).to_set(),
    decreases ids.len(),
{
    if ids.len() > 0 {
        lemma_registered_dom(ids.drop_last(), conns);
        assert(normalized(ids) =~= normalized(ids.drop_last()).push(lower_of(ids.last())));
        assert(normalized(ids).to_set() =~= normalized(ids.drop_last()).to_set().insert(
            lower_of(ids.last()),
        )) by {
            assert forall|x| normalized(ids).to_set().contains(x) <==> normalized(
                ids.drop_last(),
            ).to_set().insert(lower_of(ids.last())).contains(x) by {
                let n = normalized(ids);
                let d = normalized(ids.drop_last());
                if n.contains(x) {
                    let j = choose|j: int| 0 <= j < n.len() && n[j] == x;
                    if j < d.len() {
                        assert(d[j] == x);
                    }
                }
                if d.contains(x) {
                    let j = choose|j: int| 0 <= j < d.len() && d[j] == x;
                    assert(n[j] == x);
                }
                if x == lower_of(ids.last()) {
                    assert(n[n.len() - 1] == x);
                }
            }
        }
    } else {
        assert(normalized(ids).to_set() =~= Set::empty());
    }
}

/// After admitting participants whose normalized identities are distinct, a
/// presence snapshot holds exactly those identities; after any one of them
/// leaves, it holds exactly the others, one fewer.
pub proof fn lemma_presence_after_admissions(ids: Seq<Seq<char>>, conns: Seq<ConnId>, gone: int)
    requires
        normalized(ids).no_duplicates(),
        conns.len() == ids.len(),
        0 <= gone < ids.len(),
    ensures
        registered_after(Map::empty(), ids, conns).dom() == normalized(ids).to_set(),
        registered_after(Map::empty(), ids, conns).dom().len() == ids.len(),
        registered_after(Map::empty(), ids, conns).remove(lower_of(ids[gone])).dom()
            == normalized(ids).to_set().remove(lower_of(ids[gone])),
        registered_after(Map::empty(), ids, conns).remove(lower_of(ids[gone])).dom().len()
            == ids.len() - 1,
{
    lemma_registered_dom(ids, conns);
    normalized(ids).unique_seq_to_set();
    let m = registered_after(Map::empty(), ids, conns);
    assert(normalized(ids)[gone] == lower_of(ids[gone]));
    assert(m.dom().contains(lower_of(ids[gone])));
    assert(m.remove(lower_of(ids[gone])).dom() =~= m.dom().remove(lower_of(ids[gone])));
}

} // verus!
