use vstd::prelude::*;
use std::collections::HashMap;

verus! {

broadcast use vstd::std_specs::hash::group_hash_axioms;

/// The names that the user has given to senders, by the sender's number.
#[derive(Debug, PartialEq, Eq)]
pub struct Aliases {
    pub map: HashMap<i64, String>,
}

/// The table that a map of names stands for: the text of each name.
pub open spec fn alias_texts(names: Map<i64, String>) -> Map<i64, Seq<char>> {
    Map::new(|sender_id: i64| names.contains_key(sender_id), |sender_id: i64| names[sender_id]@)
}

impl View for Aliases {
    type V = Map<i64, Seq<char>>;

    open spec fn view(&self) -> Map<i64, Seq<char>> {
        alias_texts(self.map@)
    }
}

impl Aliases {
    /// A table without aliases.
    pub fn new() -> (table: Aliases)
        ensures
            table@ == Map::<i64, Seq<char>>::empty(),
    {
        let table = Aliases { map: HashMap::new() };
        assert(table@ =~= Map::<i64, Seq<char>>::empty());
        table
    }

    /// The alias of the sender, if it has one.
    pub fn get(&self, sender_id: i64) -> (name: Option<&String>)
        ensures
            self@.contains_key(sender_id) ==> name.is_some() && name.unwrap()@ == self@[sender_id],
            !self@.contains_key(sender_id) ==> name.is_none(),
    {
        self.map.get(&sender_id)
    }

    /// Takes the alias of the sender away and returns it, if there was one.
    pub fn remove(&mut self, sender_id: i64) -> (name: Option<String>)
        ensures
            final(self)@ == old(self)@.remove(sender_id),
            old(self)@.contains_key(sender_id) ==> name.is_some() && name.unwrap()@ == old(
                self,
            )@[sender_id],
            !old(self)@.contains_key(sender_id) ==> name.is_none(),
    {
        let name = self.map.remove(&sender_id);
        assert(self@ =~= old(self)@.remove(sender_id));
        name
    }

    /// Gives the sender the alias `name`, in place of the one it had.
    pub fn insert(&mut self, sender_id: i64, name: String)
        ensures
            final(self)@ == old(self)@.insert(sender_id, name@),
    {
        let _ = self.map.insert(sender_id, name);
        assert(self@ =~= old(self)@.insert(sender_id, name@));
    }

    /// The number of senders that have an alias.
    pub fn len(&self) -> (n: usize)
        ensures
            n == self@.dom().len(),
    {
        assert(self@.dom() =~= self.map@.dom());
        self.map.len()
    }
}

} // verus!
