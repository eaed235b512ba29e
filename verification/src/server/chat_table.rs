//! A table from chat names to numbers.

use crate::table::{
    as_map, index_of, lemma_as_map_absent, lemma_as_map_at, lemma_as_map_empty, lemma_as_map_key,
    lemma_as_map_push, lemma_as_map_remove, lemma_as_map_update, unique_keys,
};
use crate::text::same_text;
use vstd::prelude::*;

verus! {

/// One row: a chat and the number it stands for.
pub struct ChatEntry {
    pub chat: String,
    pub id: u32,
}

/// A table that holds at most one number for each chat.
pub struct ChatTable {
    pub entries: Vec<ChatEntry>,
}

/// The rows as pairs of the chat's text and the number.
pub open spec fn entry_pairs(entries: Seq<ChatEntry>) -> Seq<(Seq<char>, u32)> {
    entries.map_values(|e: ChatEntry| (e.chat@, e.id))
}

impl ChatTable {
    /// No chat has two rows.
    pub open spec fn wf(&self) -> bool {
        unique_keys(entry_pairs(self.entries@))
    }

    /// The table as a map from the chat's text.
    pub open spec fn view(&self) -> Map<Seq<char>, u32> {
        as_map(entry_pairs(self.entries@))
    }

    pub fn new() -> (r: Self)
        ensures
            r.wf(),
            r@ == Map::<Seq<char>, u32>::empty(),
    {
        let r = ChatTable { entries: Vec::new() };
        proof {
            lemma_as_map_empty::<Seq<char>, u32>();
            assert(entry_pairs(r.entries@) =~= Seq::<(Seq<char>, u32)>::empty());
        }
        r
    }

    /// The place of the row of `chat`.
    fn position(&self, chat: &str) -> (r: Option<usize>)
        requires
            self.wf(),
        ensures
            match r {
                Some(i) => i < self.entries.len() && self.entries@[i as int].chat@ == chat@
                    && self@.contains_key(chat@) && self@[chat@] == self.entries@[i as int].id,
                None => !self@.contains_key(chat@),
            },
    {
        let mut i: usize = 0;
        while i < self.entries.len()
            invariant
                i <= self.entries.len(),
                self.wf(),
                forall|j: int| 0 <= j < i ==> (#[trigger] entry_pairs(self.entries@)[j]).0 != chat@,
            decreases self.entries.len() - i,
        {
            if same_text(self.entries[i].chat.as_str(), chat) {
                proof {
                    lemma_as_map_at(entry_pairs(self.entries@), i as int);
                }
                return Some(i);
            }
            i = i + 1;
        }
        proof {
            lemma_as_map_absent(entry_pairs(self.entries@), chat@);
        }
        None
    }

    /// The number of `chat`, if it has one.
    pub fn get(&self, chat: &str) -> (r: Option<u32>)
        requires
            self.wf(),
        ensures
            r == (if self@.contains_key(chat@) {
                Some(self@[chat@])
            } else {
                None
            }),
    {
        match self.position(chat) {
            Some(i) => Some(self.entries[i].id),
            None => None,
        }
    }

    /// Gives `chat` the number `id`, in place of any it had.
    pub fn insert(&mut self, chat: String, id: u32)
        requires
            old(self).wf(),
        ensures
            final(self).wf(),
            final(self)@ == old(self)@.insert(chat@, id),
    {
        let ghost before = entry_pairs(self.entries@);
        match self.position(chat.as_str()) {
            Some(i) => {
                self.entries[i].id = id;
                proof {
                    lemma_as_map_update(before, i as int, id);
                    assert(entry_pairs(self.entries@) =~= before.update(
                        i as int,
                        (before[i as int].0, id),
                    ));
                }
            },
            None => {
                self.entries.push(ChatEntry { chat, id });
                proof {
                    lemma_as_map_push(before, chat@, id);
                    assert(entry_pairs(self.entries@) =~= before.push((chat@, id)));
                }
            },
        }
    }

    /// Takes the row of `chat` out, if there is one.
    pub fn remove(&mut self, chat: &str)
        requires
            old(self).wf(),
        ensures
            final(self).wf(),
            final(self)@ == old(self)@.remove(chat@),
    {
        let ghost before = entry_pairs(self.entries@);
        match self.position(chat) {
            Some(i) => {
                self.entries.remove(i);
                proof {
                    lemma_as_map_remove(before, i as int);
                    assert(entry_pairs(self.entries@) =~= before.remove(i as int));
                }
            },
            None => {
                assert(self@ =~= old(self)@.remove(chat@));
            },
        }
    }

    /// The chat whose number is `id`, if there is one; the first in the
    /// table where there are several.
    pub fn chat_of(&self, id: u32) -> (r: Option<String>)
        requires
            self.wf(),
        ensures
            match r {
                Some(c) => self@.contains_key(c@) && self@[c@] == id,
                None => forall|c: Seq<char>| self@.contains_key(c) ==> self@[c] != id,
            },
    {
        let mut i: usize = 0;
        while i < self.entries.len()
            invariant
                i <= self.entries.len(),
                self.wf(),
                forall|j: int| 0 <= j < i ==> (#[trigger] self.entries@[j]).id != id,
            decreases self.entries.len() - i,
        {
            if self.entries[i].id == id {
                proof {
                    lemma_as_map_at(entry_pairs(self.entries@), i as int);
                }
                return Some(self.entries[i].chat.clone());
            }
            i = i + 1;
        }
        proof {
            assert forall|c: Seq<char>| self@.contains_key(c) implies self@[c] != id by {
                lemma_as_map_key(entry_pairs(self.entries@), c);
                let k = index_of(entry_pairs(self.entries@), c);
                assert(self.entries@[k].id != id);
            }
        }
        None
    }

    /// The table without the rows whose number is `id`.
    pub open spec fn without_id(m: Map<Seq<char>, u32>, id: u32) -> Map<Seq<char>, u32> {
        Map::new(|c: Seq<char>| m.contains_key(c) && m[c] != id, |c: Seq<char>| m[c])
    }

    /// Takes out every row whose number is `id`.
    pub fn remove_id(&mut self, id: u32)
        requires
            old(self).wf(),
        ensures
            final(self).wf(),
            final(self)@ == Self::without_id(old(self)@, id),
    {
        let mut i: usize = 0;
        while i < self.entries.len()
            invariant
                i <= self.entries.len(),
                self.wf(),
                forall|j: int| 0 <= j < i ==> (#[trigger] self.entries@[j]).id != id,
                Self::without_id(self@, id) == Self::without_id(old(self)@, id),
            decreases self.entries.len() - i,
        {
            if self.entries[i].id == id {
                let ghost before = entry_pairs(self.entries@);
                let ghost prev = self@;
                self.entries.remove(i);
                proof {
                    lemma_as_map_remove(before, i as int);
                    lemma_as_map_at(before, i as int);
                    assert(entry_pairs(self.entries@) =~= before.remove(i as int));
                    assert(Self::without_id(self@, id) =~= Self::without_id(prev, id));
                }
            } else {
                i = i + 1;
            }
        }
        proof {
            assert forall|c: Seq<char>| self@.contains_key(c) implies self@[c] != id by {
                lemma_as_map_key(entry_pairs(self.entries@), c);
                let k = index_of(entry_pairs(self.entries@), c);
                assert(self.entries@[k].id != id);
            }
            assert(self@ =~= Self::without_id(self@, id));
        }
    }
}

} // verus!
