//! The prompt hub: the last prompts that users typed, and who is told of
//! new ones.

use crate::json::{json_text_member, text_member};
use crate::server::message::share;
use crate::server::work_dir::is_selection;
use crate::text::same_text;
use crate::types::message::{APIUserMessage, UserContent};
use serde_json::Value;
use std::collections::VecDeque;
use std::sync::Arc;
use vstd::prelude::*;

verus! {

/// How many prompts the hub keeps.
pub const MAX_PROMPTS: usize = 100;

/// One prompt.
#[derive(Clone, Debug, PartialEq)]
pub struct PromptRecord {
    pub content: Arc<String>,
    /// In milliseconds since the epoch.
    pub timestamp: i64,
    pub work_dir: Option<String>,
}

/// Is told of new prompts.
pub trait PromptListener {
    /// A prompt was added. An error says that the listener is gone.
    fn on_new_prompt(&self, prompt: &PromptRecord) -> Result<(), ()>;
}

/// The last `MAX_PROMPTS` prompts, oldest first, and the listeners.
pub struct PromptHub<L> {
    pub prompts: VecDeque<PromptRecord>,
    pub listeners: Vec<L>,
}

/// The last `MAX_PROMPTS` of `records`.
pub open spec fn newest(records: Seq<PromptRecord>) -> Seq<PromptRecord> {
    if records.len() > MAX_PROMPTS {
        records.subrange(records.len() - MAX_PROMPTS, records.len() as int)
    } else {
        records
    }
}

/// A copy of the record.
fn copy_record(r: &PromptRecord) -> (c: PromptRecord)
    ensures
        c == *r,
{
    PromptRecord {
        content: share(&r.content),
        timestamp: r.timestamp,
        work_dir: match &r.work_dir {
            Some(d) => Some(d.clone()),
            None => None,
        },
    }
}

/// The texts of the blocks of text among `items`, in order.
pub open spec fn block_texts(items: Seq<Value>) -> Seq<Seq<char>>
    decreases items.len(),
{
    if items.len() == 0 {
        seq![]
    } else if json_text_member(items.last(), "type"@) == Some("text"@) && json_text_member(
        items.last(),
        "text"@,
    ) is Some {
        block_texts(items.drop_last()).push(json_text_member(items.last(), "text"@)->Some_0)
    } else {
        block_texts(items.drop_last())
    }
}

/// The prompts that a message of a user holds: its text, or the texts of
/// its blocks of text.
pub open spec fn prompt_texts(content: UserContent) -> Seq<Seq<char>> {
    match content {
        UserContent::String(s) => seq![s@],
        UserContent::Vec(blocks) => block_texts(blocks@),
    }
}

/// The texts of the records.
pub open spec fn record_texts(records: Seq<PromptRecord>) -> Seq<Seq<char>> {
    records.map_values(|r: PromptRecord| r.content@)
}

impl<L: PromptListener> PromptHub<L> {
    /// A hub that holds the last `MAX_PROMPTS` of `records` and has no
    /// listener.
    pub fn new(records: Vec<PromptRecord>) -> (r: Self)
        ensures
            r.prompts@ == newest(records@),
            r.listeners@.len() == 0,
    {
        let mut prompts: VecDeque<PromptRecord> = VecDeque::new();
        let start: usize = if records.len() > MAX_PROMPTS {
            records.len() - MAX_PROMPTS
        } else {
            0
        };
        let mut i: usize = start;
        while i < records.len()
            invariant
                start <= i <= records.len(),
                prompts@ == records@.subrange(start as int, i as int),
            decreases records.len() - i,
        {
            prompts.push_back(copy_record(&records[i]));
            assert(prompts@ =~= records@.subrange(start as int, i + 1));
            i = i + 1;
        }
        assert(records@.subrange(0, records@.len() as int) =~= records@);
        PromptHub { prompts, listeners: Vec::new() }
    }

    /// The prompts that the hub holds, oldest first.
    pub fn get_all_prompts(&self) -> (r: Vec<PromptRecord>)
        ensures
            r@ == self.prompts@,
    {
        let mut out: Vec<PromptRecord> = Vec::new();
        let mut i: usize = 0;
        while i < self.prompts.len()
            invariant
                i <= self.prompts.len(),
                out@ == self.prompts@.take(i as int),
            decreases self.prompts.len() - i,
        {
            out.push(copy_record(&self.prompts[i]));
            assert(out@ =~= self.prompts@.take(i + 1));
            i = i + 1;
        }
        assert(self.prompts@.take(self.prompts@.len() as int) =~= self.prompts@);
        out
    }

    /// Tells every listener of `record`, and forgets those who are gone.
    fn notify_listeners(&mut self, record: &PromptRecord)
        ensures
            final(self).prompts == old(self).prompts,
            is_selection(final(self).listeners@, old(self).listeners@),
    {
        let mut kept: Vec<L> = Vec::new();
        let ghost all = self.listeners@;
        let ghost mut from: Seq<int> = Seq::empty();
        let ghost mut taken: int = 0;
        while self.listeners.len() > 0
            invariant
                self.prompts == old(self).prompts,
                0 <= taken,
                taken + self.listeners@.len() == all.len(),
                forall|j: int|
                    0 <= j < self.listeners@.len() ==> self.listeners@[j] == all[taken + j],
                from.len() == kept@.len(),
                forall|i: int|
                    0 <= i < from.len() ==> 0 <= #[trigger] from[i] < taken && kept@[i]
                        == all[from[i]],
                forall|i: int, j: int| 0 <= i < j < from.len() ==> from[i] < from[j],
            decreases self.listeners.len(),
        {
            assert(self.listeners@[0] == all[taken + 0]);
            let ghost rest = self.listeners@;
            let ghost had = kept@;
            let l = self.listeners.remove(0);
            assert(forall|j: int|
                0 <= j < self.listeners@.len() ==> self.listeners@[j] == rest[j + 1]);
            let ok = l.on_new_prompt(record).is_ok();
            if ok {
                kept.push(l);
                proof {
                    from = from.push(taken);
                    assert(kept@[had.len() as int] == all[taken]);
                    assert(forall|i: int| 0 <= i < had.len() ==> kept@[i] == had[i]);
                }
            }
            proof {
                taken = taken + 1;
            }
        }
        self.listeners = kept;
        proof {
            reveal(is_selection);
            assert(from.len() == self.listeners@.len());
        }
    }

    /// Adds the prompt `content`, typed at the time `now`: it is kept as the
    /// newest, the oldest is dropped where more than `MAX_PROMPTS` would be
    /// held, and the listeners are told. The result is the record, to be
    /// written to disk.
    pub fn add_prompt(&mut self, content: Arc<String>, work_dir: Option<String>, now: i64) -> (r:
        PromptRecord)
        ensures
            r == (PromptRecord { content, timestamp: now, work_dir }),
            final(self).prompts@ == newest(old(self).prompts@.push(r)),
            final(self).prompts@.len() <= MAX_PROMPTS,
            is_selection(final(self).listeners@, old(self).listeners@),
    {
        let record = PromptRecord { content, timestamp: now, work_dir };
        let ghost all = self.prompts@.push(record);
        self.prompts.push_back(copy_record(&record));
        let ghost mut dropped: int = 0;
        assert(self.prompts@ =~= all.subrange(0, all.len() as int));
        while self.prompts.len() > MAX_PROMPTS
            invariant
                0 <= dropped <= all.len(),
                dropped == 0 || all.len() - dropped >= MAX_PROMPTS,
                self.prompts@ == all.subrange(dropped, all.len() as int),
                self.listeners == old(self).listeners,
            decreases self.prompts.len(),
        {
            let _ = self.prompts.pop_front();
            proof {
                dropped = dropped + 1;
                assert(self.prompts@ =~= all.subrange(dropped, all.len() as int));
            }
        }
        assert(self.prompts@ =~= newest(all));
        self.notify_listeners(&record);
        record
    }

    /// Adds the prompts that a message of a user holds: its text, or the
    /// text of each of its blocks of text. The result holds the records, to
    /// be written to disk.
    pub fn add_user_input(&mut self, prompt: &APIUserMessage, work_dir: Option<String>, now: i64) -> (r:
        Vec<PromptRecord>)
        ensures
            record_texts(r@) == prompt_texts(prompt.message_content()),
            forall|k: int|
                0 <= k < r@.len() ==> (#[trigger] r@[k]).timestamp == now && r@[k].work_dir
                    == work_dir,
            is_selection(final(self).listeners@, old(self).listeners@),
    {
        let mut out: Vec<PromptRecord> = Vec::new();
        match &prompt.content {
            UserContent::String(s) => {
                let rec = self.add_prompt(share(s), work_dir, now);
                out.push(rec);
                assert(record_texts(out@) =~= seq![s@]);
            },
            UserContent::Vec(blocks) => {
                let mut i: usize = 0;
                assert(blocks@.take(0) =~= Seq::<Value>::empty());
                assert(record_texts(out@) =~= Seq::<Seq<char>>::empty());
                proof {
                    lemma_selection_refl(self.listeners@);
                }
                while i < blocks.len()
                    invariant
                        i <= blocks.len(),
                        record_texts(out@) == block_texts(blocks@.take(i as int)),
                        forall|k: int|
                            0 <= k < out@.len() ==> (#[trigger] out@[k]).timestamp == now
                                && out@[k].work_dir == work_dir,
                        is_selection(self.listeners@, old(self).listeners@),
                    decreases blocks.len() - i,
                {
                    let ghost head = blocks@.take(i as int);
                    let ghost next = blocks@.take(i + 1);
                    proof {
                        assert(next.drop_last() =~= head);
                        assert(next.last() == blocks@[i as int]);
                    }
                    let is_text = match text_member(&blocks[i], "type") {
                        Some(t) => same_text(t.as_str(), "text"),
                        None => false,
                    };
                    if is_text {
                        match text_member(&blocks[i], "text") {
                            Some(t) => {
                                let ghost listeners = self.listeners@;
                                let ghost had = out@;
                                let dir = match &work_dir {
                                    Some(d) => Some(d.clone()),
                                    None => None,
                                };
                                let rec = self.add_prompt(Arc::new(t), dir, now);
                                out.push(rec);
                                proof {
                                    lemma_selection_trans(
                                        self.listeners@,
                                        listeners,
                                        old(self).listeners@,
                                    );
                                    assert(record_texts(out@) =~= record_texts(had).push(t@));
                                }
                            },
                            None => {},
                        }
                    }
                    i = i + 1;
                }
                assert(blocks@.take(blocks@.len() as int) =~= blocks@);
            },
        }
        out
    }

    /// Adds a listener: it is told of every prompt that the hub holds,
    /// oldest first, and of new prompts from now on. The result says
    /// whether it was added, which it is not where it is gone already. A hub
    /// that holds no prompt has nothing to tell, and adds every listener.
    pub fn add_listener(&mut self, listener: L) -> (r: bool)
        ensures
            final(self).prompts == old(self).prompts,
            old(self).prompts@.len() == 0 ==> r,
            final(self).listeners@ == (if r {
                old(self).listeners@.push(listener)
            } else {
                old(self).listeners@
            }),
    {
        let mut i: usize = 0;
        while i < self.prompts.len()
            invariant
                i <= self.prompts.len(),
                self.prompts == old(self).prompts,
                self.listeners == old(self).listeners,
            decreases self.prompts.len() - i,
        {
            if listener.on_new_prompt(&self.prompts[i]).is_err() {
                return false;
            }
            i = i + 1;
        }
        self.listeners.push(listener);
        true
    }
}

impl APIUserMessage {
    /// What the message says.
    pub open spec fn message_content(&self) -> UserContent {
        self.content
    }
}

/// Every sequence holds all of its items in their order.
pub proof fn lemma_selection_refl<T>(s: Seq<T>)
    ensures
        is_selection(s, s),
{
    reveal(is_selection);
    let from = Seq::new(s.len(), |i: int| i);
    assert(from.len() == s.len());
    assert(forall|i: int|
        0 <= i < from.len() ==> 0 <= #[trigger] from[i] < s.len() && s[i] == s[from[i]]);
}

/// Some of some of the items are some of the items.
pub proof fn lemma_selection_trans<T>(a: Seq<T>, b: Seq<T>, c: Seq<T>)
    requires
        is_selection(a, b),
        is_selection(b, c),
    ensures
        is_selection(a, c),
{
    reveal(is_selection);
    let f = choose|from: Seq<int>|
        #![trigger from.len()]
        from.len() == a.len() && (forall|i: int|
            0 <= i < from.len() ==> 0 <= #[trigger] from[i] < b.len() && a[i] == b[from[i]]) && (
        forall|i: int, j: int| 0 <= i < j < from.len() ==> from[i] < from[j]);
    let g = choose|from: Seq<int>|
        #![trigger from.len()]
        from.len() == b.len() && (forall|i: int|
            0 <= i < from.len() ==> 0 <= #[trigger] from[i] < c.len() && b[i] == c[from[i]]) && (
        forall|i: int, j: int| 0 <= i < j < from.len() ==> from[i] < from[j]);
    let h = Seq::new(a.len(), |i: int| g[f[i]]);
    assert(h.len() == a.len());
    assert forall|i: int| 0 <= i < h.len() implies 0 <= #[trigger] h[i] < c.len() && a[i]
        == c[h[i]] by {
        assert(0 <= f[i] < b.len());
        assert(0 <= g[f[i]] < c.len());
    }
    assert forall|i: int, j: int| 0 <= i < j < h.len() implies h[i] < h[j] by {
        assert(0 <= f[i] < b.len());
        assert(0 <= f[j] < b.len());
        assert(f[i] < f[j]);
    }
}

} // verus!
