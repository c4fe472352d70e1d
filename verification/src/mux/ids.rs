//! The allocator of stream ids.
//!
//! A logical stream is named by one byte. The values 0 and 255 mark control
//! frames, so 254 ids are left: 1 to 254. The allocator hands out the lowest
//! free one, and an id can be handed out again as soon as it was released.

use vstd::prelude::*;

verus! {

/// Lowest id that names a logical stream.
pub const FIRST_ID: u8 = 1;

/// Highest id that names a logical stream.
pub const LAST_ID: u8 = 254;

/// Number of logical streams that can be open at one time.
pub const MAX_STREAMS: usize = 254;

/// `id` can name a logical stream.
pub open spec fn is_stream_id(id: u8) -> bool {
    FIRST_ID <= id <= LAST_ID
}

/// `id` is the lowest stream id outside `busy`.
pub open spec fn is_lowest_free(busy: Set<u8>, id: u8) -> bool {
    &&& is_stream_id(id)
    &&& !busy.contains(id)
    &&& forall|low: u8| FIRST_ID <= low < id ==> busy.contains(low)
}

/// Every stream id is in `busy`.
pub open spec fn all_busy(busy: Set<u8>) -> bool {
    forall|id: u8| is_stream_id(id) ==> busy.contains(id)
}

/// The id that an allocation takes from the ids outside `busy`, if one is
/// left.
pub open spec fn next_free(busy: Set<u8>) -> Option<u8> {
    if all_busy(busy) {
        None
    } else {
        Some(choose|id: u8| is_lowest_free(busy, id))
    }
}

/// Where some id is free, `next_free` names the lowest free one, and no other
/// id is the lowest.
pub proof fn lemma_next_free(busy: Set<u8>)
    ensures
        next_free(busy) is Some ==> is_lowest_free(busy, next_free(busy)->0),
        forall|id: u8| is_lowest_free(busy, id) ==> next_free(busy) == Some(id),
{
    if !all_busy(busy) {
        let free = choose|id: u8| is_stream_id(id) && !busy.contains(id);
        lemma_lowest_exists(busy, free);
    }
    assert forall|id: u8| is_lowest_free(busy, id) implies next_free(busy) == Some(id) by {
        let picked = choose|other: u8| is_lowest_free(busy, other);
        assert(is_lowest_free(busy, picked));
        if picked < id {
            assert(busy.contains(picked));
        } else if id < picked {
            assert(busy.contains(id));
        }
    }
}

proof fn lemma_lowest_exists(busy: Set<u8>, free: u8)
    requires
        is_stream_id(free),
        !busy.contains(free),
    ensures
        exists|id: u8| is_lowest_free(busy, id),
    decreases free,
{
    if forall|low: u8| FIRST_ID <= low < free ==> busy.contains(low) {
        assert(is_lowest_free(busy, free));
    } else {
        let low = choose|low: u8| FIRST_ID <= low < free && !busy.contains(low);
        lemma_lowest_exists(busy, low);
    }
}

/// All ids that can name a logical stream.
pub open spec fn stream_ids() -> Set<u8> {
    Set::new(|id: u8| is_stream_id(id))
}

/// There are 254 stream ids.
pub proof fn lemma_stream_ids()
    ensures
        stream_ids().finite(),
        stream_ids().len() == MAX_STREAMS,
{
    let range = vstd::set_lib::set_int_range(1, 255);
    let narrow = |i: int| i as u8;
    vstd::set_lib::lemma_int_range(1, 255);
    assert(range.map(narrow) =~= stream_ids()) by {
        assert forall|id: u8| stream_ids().contains(id) implies range.map(narrow).contains(
            id,
        ) by {
            assert(range.contains(id as int) && narrow(id as int) == id);
        }
    }
    assert(vstd::relations::injective_on(narrow, range));
    vstd::set_lib::lemma_map_size(range, stream_ids(), narrow);
}

/// An id is left exactly while fewer than 254 are handed out.
pub proof fn lemma_exhaustion(busy: Set<u8>)
    requires
        busy.subset_of(stream_ids()),
    ensures
        busy.finite(),
        busy.len() <= MAX_STREAMS,
        next_free(busy) is None <==> busy.len() == MAX_STREAMS,
{
    lemma_stream_ids();
    vstd::set_lib::lemma_len_subset(busy, stream_ids());
    if busy.len() == MAX_STREAMS {
        vstd::set_lib::lemma_subset_equality(busy, stream_ids());
        assert forall|id: u8| is_stream_id(id) implies busy.contains(id) by {
            assert(stream_ids().contains(id));
        }
    } else if all_busy(busy) {
        assert(stream_ids().subset_of(busy));
        vstd::set_lib::lemma_len_subset(stream_ids(), busy);
    }
}

/// An id that was released can be handed out again at once: it is free, and
/// the next allocation yields an id that is no higher.
pub proof fn lemma_id_reuse(busy: Set<u8>, id: u8)
    requires
        is_stream_id(id),
    ensures
        !busy.remove(id).contains(id),
        next_free(busy.remove(id)) is Some,
        next_free(busy.remove(id))->0 <= id,
{
    let after = busy.remove(id);
    lemma_next_free(after);
    let next = next_free(after)->0;
    if next > id {
        assert(after.contains(id));
    }
}

/// A bitmap with one slot for each stream id.
pub struct IdAllocator {
    slots: [bool; 255],
}

impl View for IdAllocator {
    type V = Set<u8>;

    /// The ids that are handed out.
    closed spec fn view(&self) -> Set<u8> {
        Set::new(|id: u8| id < 255 && self.slots[id as int])
    }
}

impl IdAllocator {
    /// Only stream ids are ever handed out.
    pub closed spec fn wf(&self) -> bool {
        !self.slots[0]
    }

    /// Every id that is handed out names a stream, so at most 254 are.
    pub proof fn lemma_view(&self)
        requires
            self.wf(),
        ensures
            self@.subset_of(stream_ids()),
            self@.finite(),
            self@.len() <= MAX_STREAMS,
    {
        assert(self@.subset_of(stream_ids()));
        lemma_exhaustion(self@);
    }

    /// An allocator with every id free.
    pub fn new() -> (ids: IdAllocator)
        ensures
            ids.wf(),
            ids@ == Set::<u8>::empty(),
    {
        let ids = IdAllocator { slots: [false; 255] };
        assert(ids@ =~= Set::<u8>::empty());
        ids
    }

    /// Whether `id` is handed out.
    pub fn is_reserved(&self, id: u8) -> (r: bool)
        ensures
            r == self@.contains(id),
    {
        id < 255 && self.slots[id as usize]
    }

    /// The lowest free id, if one is left. Nothing is handed out.
    pub fn lowest_free(&self) -> (r: Option<u8>)
        requires
            self.wf(),
        ensures
            r == next_free(self@),
    {
        let mut i: u8 = 1;
        while i < 255
            invariant
                1 <= i <= 255,
                forall|low: u8| FIRST_ID <= low < i ==> self@.contains(low),
            decreases 255 - i,
        {
            if !self.slots[i as usize] {
                proof {
                    assert(is_lowest_free(self@, i));
                    lemma_next_free(self@);
                }
                return Some(i);
            }
            i = i + 1;
        }
        assert(all_busy(self@));
        None
    }

    /// Hands out the lowest free id. With every id handed out nothing
    /// changes and the result is `None`.
    pub fn reserve_id(&mut self) -> (r: Option<u8>)
        requires
            old(self).wf(),
        ensures
            final(self).wf(),
            r == next_free(old(self)@),
            match r {
                Some(id) => final(self)@ == old(self)@.insert(id),
                None => final(self)@ == old(self)@,
            },
    {
        match self.lowest_free() {
            Some(id) => {
                proof {
                    lemma_next_free(self@);
                }
                self.slots[id as usize] = true;
                assert(self@ =~= old(self)@.insert(id));
                Some(id)
            },
            None => None,
        }
    }

    /// Hands out `id` itself, where it names a stream and is free. Otherwise
    /// nothing changes and the result is `false`.
    pub fn claim_id(&mut self, id: u8) -> (claimed: bool)
        requires
            old(self).wf(),
        ensures
            final(self).wf(),
            claimed == (is_stream_id(id) && !old(self)@.contains(id)),
            final(self)@ == if claimed {
                old(self)@.insert(id)
            } else {
                old(self)@
            },
    {
        if id == 0 || id == 255 || self.slots[id as usize] {
            return false;
        }
        self.slots[id as usize] = true;
        assert(self@ =~= old(self)@.insert(id));
        true
    }

    /// Frees `id`. Releasing an id that is free, or one that names no stream,
    /// changes nothing.
    pub fn release_id(&mut self, id: u8)
        requires
            old(self).wf(),
        ensures
            final(self).wf(),
            final(self)@ == old(self)@.remove(id),
    {
        if id < 255 {
            self.slots[id as usize] = false;
        }
        assert(self@ =~= old(self)@.remove(id));
    }
}

} // verus!
