use vstd::prelude::*;
use crate::timeline::{TimelineItem, TimelineUpdate};

verus! {

/// One positional change to a room's timeline.
pub enum ItemDiff {
    Append { values: Vec<TimelineItem> },
    Clear,
    PushFront { value: TimelineItem },
    PushBack { value: TimelineItem },
    PopFront,
    PopBack,
    Insert { index: usize, value: TimelineItem },
    SetValue { index: usize, value: TimelineItem },
    Remove { index: usize },
    Truncate { length: usize },
    Reset { values: Vec<TimelineItem> },
}

/// The items after one diff; a diff whose index is out of bounds changes nothing.
pub open spec fn apply_item_diff(s: Seq<TimelineItem>, d: ItemDiff) -> Seq<TimelineItem> {
    match d {
        ItemDiff::Append { values } => s + values@,
        ItemDiff::Clear => Seq::empty(),
        ItemDiff::PushFront { value } => seq![value] + s,
        ItemDiff::PushBack { value } => s.push(value),
        ItemDiff::PopFront => if s.len() > 0 { s.drop_first() } else { s },
        ItemDiff::PopBack => if s.len() > 0 { s.drop_last() } else { s },
        ItemDiff::Insert { index, value } => if index <= s.len() { s.insert(index as int, value) } else { s },
        ItemDiff::SetValue { index, value } => if index < s.len() { s.update(index as int, value) } else { s },
        ItemDiff::Remove { index } => if index < s.len() { s.remove(index as int) } else { s },
        ItemDiff::Truncate { length } => if length < s.len() { s.subrange(0, length as int) } else { s },
        ItemDiff::Reset { values } => values@,
    }
}

/// The items after the diffs, applied in order.
pub open spec fn apply_item_diffs(s: Seq<TimelineItem>, ds: Seq<ItemDiff>) -> Seq<TimelineItem>
    decreases ds.len(),
{
    if ds.len() == 0 {
        s
    } else {
        apply_item_diff(apply_item_diffs(s, ds.drop_last()), ds.last())
    }
}

/// Whether the diffs reset the timeline (a `Clear` or a `Reset`).
pub open spec fn resets(ds: Seq<ItemDiff>) -> bool
    decreases ds.len(),
{
    ds.len() > 0 && (ds.last() is Clear || ds.last() is Reset || resets(ds.drop_last()))
}

pub fn clone_item(item: &TimelineItem) -> (r: TimelineItem)
    ensures
        r == *item,
{
    match item {
        TimelineItem::Event { unique_id, event_id, sender, timestamp, is_own, is_local_echo } => TimelineItem::Event {
            unique_id: unique_id.clone(),
            event_id: crate::snapshot::clone_opt_string(event_id),
            sender: sender.clone(),
            timestamp: *timestamp,
            is_own: *is_own,
            is_local_echo: *is_local_echo,
        },
        TimelineItem::Virtual { unique_id, kind } => TimelineItem::Virtual { unique_id: unique_id.clone(), kind: *kind },
    }
}

pub fn clone_items(v: &Vec<TimelineItem>) -> (r: Vec<TimelineItem>)
    ensures
        r@ == v@,
{
    let mut r: Vec<TimelineItem> = Vec::new();
    let mut i: usize = 0;
    while i < v.len()
        invariant
            i <= v@.len(),
            r@ == v@.subrange(0, i as int),
        decreases v@.len() - i,
    {
        r.push(clone_item(&v[i]));
        assert(r@ =~= v@.subrange(0, i as int + 1));
        i = i + 1;
    }
    assert(v@.subrange(0, v@.len() as int) =~= v@);
    r
}

/// The background consumer of one room's timeline: it owns the authoritative list of
/// items, applies each diff batch of the room's stream to it, and says which update the
/// UI gets.
pub struct TimelineConsumer {
    pub items: Vec<TimelineItem>,
    /// Whether the first non-empty list was already sent.
    pub sent_first: bool,
}

impl TimelineConsumer {
    pub fn new() -> (r: Self)
        ensures
            r.items@.len() == 0,
            !r.sent_first,
    {
        TimelineConsumer { items: Vec::new(), sent_first: false }
    }

    fn apply_one(&mut self, d: ItemDiff)
        ensures
            final(self).items@ == apply_item_diff(old(self).items@, d),
            final(self).sent_first == old(self).sent_first,
    {
        match d {
            ItemDiff::Append { values } => {
                let mut values = values;
                self.items.append(&mut values);
            },
            ItemDiff::Clear => {
                self.items.clear();
            },
            ItemDiff::PushFront { value } => {
                self.items.insert(0, value);
                assert(self.items@ =~= seq![value] + old(self).items@);
            },
            ItemDiff::PushBack { value } => {
                self.items.push(value);
            },
            ItemDiff::PopFront => {
                if self.items.len() > 0 {
                    self.items.remove(0);
                    assert(self.items@ =~= old(self).items@.drop_first());
                }
            },
            ItemDiff::PopBack => {
                if self.items.len() > 0 {
                    self.items.pop();
                    assert(self.items@ =~= old(self).items@.drop_last());
                }
            },
            ItemDiff::Insert { index, value } => {
                if index <= self.items.len() {
                    self.items.insert(index, value);
                }
            },
            ItemDiff::SetValue { index, value } => {
                if index < self.items.len() {
                    self.items.set(index, value);
                }
            },
            ItemDiff::Remove { index } => {
                if index < self.items.len() {
                    self.items.remove(index);
                }
            },
            ItemDiff::Truncate { length } => {
                if length < self.items.len() {
                    self.items.truncate(length);
                }
            },
            ItemDiff::Reset { values } => {
                self.items = values;
            },
        }
    }

    /// Applies one diff batch of the room's stream. The first time the list is not empty
    /// the UI gets `FirstUpdate` with it; after that every batch gives `NewItems` with the
    /// whole list, marked `clear_cache` when the batch reset the timeline.
    pub fn on_diffs(&mut self, diffs: Vec<ItemDiff>) -> (r: Option<TimelineUpdate>)
        ensures
            final(self).items@ == apply_item_diffs(old(self).items@, diffs@),
            old(self).sent_first ==> final(self).sent_first && (r matches Some(
                TimelineUpdate::NewItems { new_items, clear_cache },
            ) && new_items@ == final(self).items@ && clear_cache == resets(diffs@)),
            !old(self).sent_first && final(self).items@.len() > 0 ==> final(self).sent_first
                && (r matches Some(TimelineUpdate::FirstUpdate { initial_items })
                && initial_items@ == final(self).items@),
            !old(self).sent_first && final(self).items@.len() == 0 ==> !final(self).sent_first
                && r is None,
    {
        let ghost ds = diffs@;
        let ghost s0 = self.items@;
        let n = diffs.len();
        let mut pending = diffs;
        let mut k: usize = 0;
        let mut reset = false;
        assert(ds.subrange(0, 0) =~= Seq::<ItemDiff>::empty());
        while pending.len() > 0
            invariant
                n == ds.len(),
                k <= n,
                pending@ == ds.subrange(k as int, n as int),
                self.items@ == apply_item_diffs(s0, ds.subrange(0, k as int)),
                reset == resets(ds.subrange(0, k as int)),
                self.sent_first == old(self).sent_first,
            decreases pending@.len(),
        {
            let d = pending.remove(0);
            proof {
                let p = ds.subrange(0, k as int + 1);
                assert(p.drop_last() =~= ds.subrange(0, k as int));
                assert(p.last() == d);
                assert(pending@ =~= ds.subrange(k as int + 1, n as int));
            }
            let is_reset = match &d {
                ItemDiff::Clear => true,
                ItemDiff::Reset { .. } => true,
                _ => false,
            };
            reset = reset || is_reset;
            self.apply_one(d);
            k = k + 1;
        }
        assert(ds.subrange(0, n as int) =~= ds);
        if self.sent_first {
            Some(TimelineUpdate::NewItems { new_items: clone_items(&self.items), clear_cache: reset })
        } else if self.items.len() > 0 {
            self.sent_first = true;
            Some(TimelineUpdate::FirstUpdate { initial_items: clone_items(&self.items) })
        } else {
            None
        }
    }
}

} // verus!
