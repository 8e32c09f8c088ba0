//! A first-in, first-out queue, in which pools of presignatures are kept.

use crate::msgpack::{
    decode_presignatures, encode_presignatures, msgpack_presignatures, presignature_data,
    presignatures_msgpack,
};
use crate::signing::Presignature;
use std::collections::VecDeque;
use vstd::prelude::*;

verus! {

/// A queue whose items leave in the order in which they came.
#[derive(Clone, Debug)]
pub struct FifoQueue<T>(VecDeque<T>);

impl<T> View for FifoQueue<T> {
    type V = Seq<T>;

    closed spec fn view(&self) -> Seq<T> {
        self.0@
    }
}

impl<T> FifoQueue<T> {
    /// An empty queue with room for `capacity` items. Room that no allocation can have is not
    /// reserved.
    pub fn with_capacity(capacity: usize) -> (queue: Self)
        ensures
            queue@ == Seq::<T>::empty(),
    {
        let item: usize = core::mem::size_of::<T>();
        if item == 0 || capacity <= isize::MAX as usize / item {
            Self(VecDeque::with_capacity(capacity))
        } else {
            Self(VecDeque::new())
        }
    }

    /// Adds an item at the end.
    pub fn push(&mut self, item: T)
        ensures
            final(self)@ == old(self)@.push(item),
    {
        self.0.push_back(item);
    }

    /// Takes the item that has waited longest; `None` where there is none.
    pub fn pop_next(&mut self) -> (item: Option<T>)
        ensures
            match item {
                Some(x) => old(self)@.len() > 0 && x == old(self)@[0] && final(self)@ == old(
                    self,
                )@.drop_first(),
                None => old(self)@.len() == 0 && final(self)@ == old(self)@,
            },
    {
        self.0.pop_front()
    }

    /// How many items wait.
    pub fn len(&self) -> (len: usize)
        ensures
            len == self@.len(),
    {
        self.0.len()
    }

    /// Whether no item waits.
    pub fn is_empty(&self) -> (empty: bool)
        ensures
            empty == (self@.len() == 0),
    {
        self.0.len() == 0
    }
}

impl FifoQueue<Presignature> {
    /// The queue in MessagePack, the item that leaves first standing first. The only errors are
    /// those of memory that runs out.
    pub fn to_msgpack(&self) -> (bytes: Result<Vec<u8>, rmp_serde::encode::Error>)
        ensures
            bytes matches Ok(b) ==> b@ == presignatures_msgpack(presignature_data(self@)) && (
            self@.len() <= u32::MAX ==> msgpack_presignatures(b@) == Some(presignature_data(self@))),
    {
        encode_presignatures(&self.0)
    }

    /// Reads a queue from MessagePack.
    pub fn from_msgpack(bytes: &[u8]) -> (queue: Result<Self, rmp_serde::decode::Error>)
        ensures
            match queue {
                Ok(q) => msgpack_presignatures(bytes@) == Some(presignature_data(q@)),
                Err(_) => msgpack_presignatures(bytes@) is None,
            },
    {
        match decode_presignatures(bytes) {
            Ok(presigs) => Ok(Self(presigs)),
            Err(error) => Err(error),
        }
    }
}

/// What a queue holds after items came in order.
pub open spec fn pushed_all<T>(queue: Seq<T>, items: Seq<T>) -> Seq<T>
    decreases items.len(),
{
    if items.len() == 0 {
        queue
    } else {
        pushed_all(queue, items.drop_last()).push(items.last())
    }
}

/// What a queue holds after `count` items left.
pub open spec fn popped_all<T>(queue: Seq<T>, count: nat) -> Seq<T>
    decreases count,
{
    if count == 0 {
        queue
    } else {
        popped_all(queue, (count - 1) as nat).drop_first()
    }
}

/// The item that leaves an initially empty queue after `count` others have left is the one that
/// came after `count` others had come.
pub proof fn items_leave_in_the_order_they_came<T>(items: Seq<T>, count: nat)
    requires
        count < items.len(),
    ensures
        popped_all(pushed_all(Seq::<T>::empty(), items), count).len() == items.len() - count,
        popped_all(pushed_all(Seq::<T>::empty(), items), count)[0] == items[count as int],
{
    pushing_appends(Seq::<T>::empty(), items);
    assert(Seq::<T>::empty() + items =~= items);
    popping_skips(items, count);
}

/// Items that came stand behind what the queue held.
pub proof fn pushing_appends<T>(queue: Seq<T>, items: Seq<T>)
    ensures
        pushed_all(queue, items) == queue + items,
    decreases items.len(),
{
    if items.len() > 0 {
        pushing_appends(queue, items.drop_last());
        assert((queue + items.drop_last()).push(items.last()) =~= queue + items);
    } else {
        assert(queue + items =~= queue);
    }
}

/// Items that left stood in front of what the queue still holds.
pub proof fn popping_skips<T>(queue: Seq<T>, count: nat)
    requires
        count <= queue.len(),
    ensures
        popped_all(queue, count) == queue.skip(count as int),
    decreases count,
{
    if count > 0 {
        popping_skips(queue, (count - 1) as nat);
        assert(queue.skip(count - 1).drop_first() =~= queue.skip(count as int));
    } else {
        assert(queue.skip(0) =~= queue);
    }
}

} // verus!
