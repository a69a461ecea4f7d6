use vstd::prelude::*;

use crate::table::{string_views, Table};

verus! {

/// Public keys that participants published, by username. The relay stores them
/// as the text the participants sent.
pub struct PubkeyDirectory {
    table: Table<String>,
}

impl View for PubkeyDirectory {
    type V = Map<Seq<char>, Seq<char>>;

    closed spec fn view(&self) -> Map<Seq<char>, Seq<char>> {
        self.table@.map_values(|s: String| s@)
    }
}

impl PubkeyDirectory {
    pub closed spec fn wf(&self) -> bool {
        self.table.wf()
    }

    pub fn new() -> (r: PubkeyDirectory)
        ensures
            r.wf(),
            r@ == Map::<Seq<char>, Seq<char>>::empty(),
    {
        let r = PubkeyDirectory { table: Table::new() };
        assert(r@ =~= Map::<Seq<char>, Seq<char>>::empty());
        r
    }

    /// Publishes a key: both texts must be non-empty, and the answer is "ok";
    /// otherwise nothing changes and the answer is "missing username or pubkey".
    pub fn post_pubkey(&mut self, username: &str, pubkey: &str) -> (r: String)
        requires
            old(self).wf(),
        ensures
            final(self).wf(),
            username@.len() > 0 && pubkey@.len() > 0 ==> r@ == "ok"@ && final(self)@
                == old(self)@.insert(username@, pubkey@),
            !(username@.len() > 0 && pubkey@.len() > 0) ==> r@ == "missing username or pubkey"@
                && final(self)@ == old(self)@,
    {
        if !username.is_empty() && !pubkey.is_empty() {
            let ghost u = username@;
            let ghost p = pubkey@;
            self.table.insert(username.to_owned(), pubkey.to_owned());
            assert(self@ =~= old(self)@.insert(u, p));
            "ok".to_owned()
        } else {
            "missing username or pubkey".to_owned()
        }
    }

    /// Every published (username, key) pair.
    pub fn get_pubkeys(&self) -> (r: Vec<(String, String)>)
        requires
            self.wf(),
        ensures
            r@.len() == self@.dom().len(),
            forall|i: int|
                0 <= i < r@.len() ==> self@.contains_key(#[trigger] r@[i].0@) && self@[r@[i].0@]
                    == r@[i].1@,
            forall|u: Seq<char>|
                self@.contains_key(u) ==> exists|i: int| 0 <= i < r@.len() && #[trigger] r@[i].0@ == u,
    {
        let names = self.table.keys();
        let mut r: Vec<(String, String)> = Vec::new();
        let mut i: usize = 0;
        while i < names.len()
            invariant
                self.wf(),
                i <= names@.len(),
                string_views(names@).no_duplicates(),
                string_views(names@).to_set() == self.table@.dom(),
                r@.len() == i,
                forall|j: int| 0 <= j < i ==> #[trigger] r@[j].0@ == names@[j]@,
                forall|j: int| 0 <= j < i ==> self@.contains_key(#[trigger] r@[j].0@)
                    && self@[r@[j].0@] == r@[j].1@,
            decreases names@.len() - i,
        {
            assert(string_views(names@)[i as int] == names@[i as int]@);
            assert(string_views(names@).to_set().contains(names@[i as int]@));
            match self.table.get(names[i].as_str()) {
                Some(k) => {
                    r.push((names[i].clone(), k.clone()));
                },
                None => {
                    assert(false);
                },
            }
            i = i + 1;
        }
        proof {
            string_views(names@).unique_seq_to_set();
            assert(self@.dom() =~= self.table@.dom());
            assert forall|u: Seq<char>| self@.contains_key(u) implies exists|i: int|
                0 <= i < r@.len() && #[trigger] r@[i].0@ == u by {
                assert(string_views(names@).to_set().contains(u));
                let j = choose|j: int| 0 <= j < string_views(names@).len()
                    && string_views(names@)[j] == u;
                assert(r@[j].0@ == u);
            }
        }
        r
    }
}

} // verus!
