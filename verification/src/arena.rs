use crate::error::ArenaError;
use crate::handle::{issues, yields, Handle, HandleView, SectionHandle};
use crate::section::{lemma_push_outdates_only_its_slot, APASection, SectionView};
use crate::flags::{APAllocFlags, FlagState};
use crate::slot::SlotControl;
use vstd::prelude::*;

verus! {

/// What an arena is: its sections in the order in which they were created, the
/// number of sections it may grow to, and the capacity it gives to the sections
/// it creates on demand.
pub struct PoolView<T> {
    pub sections: Seq<SectionView<T>>,
    pub limit: nat,
    pub section_size: nat,
}

/// The number of slots that `section` keeps allocated: its capacity while its
/// storage exists, none once it is released.
pub open spec fn footprint<T>(section: SectionView<T>) -> nat {
    if section.released {
        0
    } else {
        section.capacity
    }
}

/// The number of slots that `sections` keep allocated between them.
pub open spec fn live_capacity<T>(sections: Seq<SectionView<T>>) -> nat
    decreases sections.len(),
{
    if sections.len() == 0 {
        0
    } else {
        live_capacity(sections.drop_last()) + footprint(sections.last())
    }
}

/// One more section adds its footprint.
pub proof fn lemma_live_capacity_push<T>(sections: Seq<SectionView<T>>, section: SectionView<T>)
    ensures
        live_capacity(sections.push(section)) == live_capacity(sections) + footprint(section),
{
    assert(sections.push(section).drop_last() =~= sections);
}

/// Replacing one section exchanges its footprint for that of its replacement.
pub proof fn lemma_live_capacity_update<T>(
    sections: Seq<SectionView<T>>,
    id: int,
    section: SectionView<T>,
)
    requires
        0 <= id < sections.len(),
    ensures
        live_capacity(sections.update(id, section)) == live_capacity(sections) - footprint(
            sections[id],
        ) + footprint(section),
    decreases sections.len(),
{
    if id == sections.len() - 1 {
        assert(sections.update(id, section).drop_last() =~= sections.drop_last());
    } else {
        lemma_live_capacity_update(sections.drop_last(), id, section);
        assert(sections.update(id, section).drop_last() =~= sections.drop_last().update(
            id,
            section,
        ));
    }
}

impl<T> PoolView<T> {
    /// An arena without sections.
    pub open spec fn empty(section_size: nat, limit: nat) -> PoolView<T> {
        PoolView { sections: Seq::empty(), limit, section_size }
    }

    /// The number of slots allocated over all sections.
    pub open spec fn size(self) -> nat {
        live_capacity(self.sections)
    }

    /// The sections are well formed and known by their place in the index, there
    /// are no more of them than the limit allows, and every count fits its
    /// machine word.
    pub open spec fn wf(self) -> bool {
        &&& self.sections.len() <= self.limit <= usize::MAX
        &&& self.section_size <= usize::MAX
        &&& self.size() <= usize::MAX
        &&& forall|i: int|
            0 <= i < self.sections.len() ==> (#[trigger] self.sections[i]).wf()
                && self.sections[i].id == i
    }

    /// A section of `size` slots can be added: the limit on sections is not
    /// reached and the slot count still fits its word.
    pub open spec fn can_grow(self, size: nat) -> bool {
        self.sections.len() < self.limit && self.size() + size <= usize::MAX
    }

    /// The arena with `section` appended to its index.
    pub open spec fn grown(self, section: SectionView<T>) -> PoolView<T> {
        PoolView { sections: self.sections.push(section), ..self }
    }

    /// The arena with section `id` replaced by `section`.
    pub open spec fn with_section(self, id: nat, section: SectionView<T>) -> PoolView<T> {
        PoolView { sections: self.sections.update(id as int, section), ..self }
    }

    /// The index has a section `id`.
    pub open spec fn locate(self, id: nat) -> Result<(), ArenaError> {
        if id >= self.sections.len() {
            Err(ArenaError::IndexOutOfBounds)
        } else {
            Ok(())
        }
    }

    /// The index has a section `id` and somebody holds it.
    pub open spec fn held(self, id: nat) -> Result<(), ArenaError> {
        if id >= self.sections.len() {
            Err(ArenaError::IndexOutOfBounds)
        } else if self.sections[id as int].refs == 0 {
            Err(ArenaError::InvalidHandle)
        } else {
            Ok(())
        }
    }

    /// The arena after the storage of section `id` has been freed, which happens
    /// only while nobody holds the section.
    pub open spec fn after_destroy(self, id: nat) -> PoolView<T> {
        if id >= self.sections.len() {
            self
        } else {
            self.with_section(id, self.sections[id as int].destroyed())
        }
    }

    /// What a reader gets who presents the handle `h`.
    pub open spec fn read(self, h: HandleView) -> Result<T, ArenaError> {
        match self.locate(h.section) {
            Err(e) => Err(e),
            Ok(_) => self.sections[h.section as int].read(h.slot, h.generation),
        }
    }

    /// Section `id` is the one that a request for a section is answered with:
    /// nobody holds it yet, and somebody holds, or has given up, each section
    /// before it.
    pub open spec fn first_unclaimed(self, id: nat) -> bool {
        &&& id < self.sections.len()
        &&& self.sections[id as int].unclaimed()
        &&& forall|j: int| 0 <= j < id ==> !(#[trigger] self.sections[j]).unclaimed()
    }

    /// Every section is held or has been given up.
    pub open spec fn none_unclaimed(self) -> bool {
        forall|j: int| 0 <= j < self.sections.len() ==> !(#[trigger] self.sections[j]).unclaimed()
    }

    /// A request for a section is answered with section `id`: an existing one
    /// that nobody holds, or else a new one at the end of the index.
    pub open spec fn grants(self, id: nat) -> bool {
        ||| self.first_unclaimed(id)
        ||| self.none_unclaimed() && self.can_grow(self.section_size) && id == self.sections.len()
    }

    /// The arena after a request was answered with section `id`.
    pub open spec fn after_request(self, id: nat) -> PoolView<T> {
        if id < self.sections.len() {
            self.with_section(id, self.sections[id as int].after_retain())
        } else {
            self.grown(SectionView::fresh(id, self.section_size).after_retain())
        }
    }

    /// Whether one more handle to section `id` can be issued to somebody who
    /// holds one.
    pub open spec fn retain(self, id: nat) -> Result<(), ArenaError> {
        match self.held(id) {
            Err(e) => Err(e),
            Ok(_) => self.sections[id as int].retain(),
        }
    }

    /// The arena after that handle has been issued.
    pub open spec fn after_retain(self, id: nat) -> PoolView<T> {
        if self.held(id) is Err {
            self
        } else {
            self.with_section(id, self.sections[id as int].after_retain())
        }
    }

    /// Whether a handle to section `id` can be given back, and whether it was
    /// the last one.
    pub open spec fn release(self, id: nat) -> Result<bool, ArenaError> {
        match self.held(id) {
            Err(e) => Err(e),
            Ok(_) => self.sections[id as int].release(),
        }
    }

    /// The arena after that handle has been given back.
    pub open spec fn after_release(self, id: nat) -> PoolView<T> {
        if self.held(id) is Err {
            self
        } else {
            self.with_section(id, self.sections[id as int].after_release())
        }
    }

    /// Whether a claim of the slot under the cursor of section `id` goes through
    /// for a writer that last saw its flag word as `expected`.
    pub open spec fn claim(self, id: nat, expected: FlagState) -> Result<(), ArenaError> {
        match self.held(id) {
            Err(e) => Err(e),
            Ok(_) => self.sections[id as int].claim(expected),
        }
    }

    /// The arena after that claim.
    pub open spec fn after_claim(self, id: nat, expected: FlagState) -> PoolView<T> {
        if self.held(id) is Err {
            self
        } else {
            self.with_section(id, self.sections[id as int].after_claim(expected))
        }
    }

    /// Whether a commit to the slot under the cursor of section `id` goes
    /// through, and the handle it issues.
    pub open spec fn commit(self, id: nat) -> Result<HandleView, ArenaError> {
        match self.held(id) {
            Err(e) => Err(e),
            Ok(_) => self.sections[id as int].commit(),
        }
    }

    /// The arena after a commit of `value` to section `id`.
    pub open spec fn after_commit(self, id: nat, value: T) -> PoolView<T> {
        if self.held(id) is Err {
            self
        } else {
            self.with_section(id, self.sections[id as int].after_commit(value))
        }
    }

    /// Whether a write to section `id` goes through, and the handle it issues.
    pub open spec fn write(self, id: nat) -> Result<HandleView, ArenaError> {
        match self.held(id) {
            Err(e) => Err(e),
            Ok(_) => self.sections[id as int].push(),
        }
    }

    /// The arena after a write of `value` to section `id`.
    pub open spec fn after_write(self, id: nat, value: T) -> PoolView<T> {
        if self.held(id) is Err {
            self
        } else {
            self.with_section(id, self.sections[id as int].after_push(value))
        }
    }

    /// Whether a write to the first section goes through, and the handle it
    /// issues.
    pub open spec fn push(self) -> Result<HandleView, ArenaError> {
        match self.locate(0) {
            Err(e) => Err(e),
            Ok(_) => self.sections[0].push(),
        }
    }

    /// The arena after a write of `value` to the first section.
    pub open spec fn after_push(self, value: T) -> PoolView<T> {
        if self.locate(0) is Err {
            self
        } else {
            self.with_section(0, self.sections[0].after_push(value))
        }
    }

    /// Whether a write over the value that `h` names goes through, and the
    /// handle it issues.
    pub open spec fn overwrite(self, h: HandleView) -> Result<HandleView, ArenaError> {
        match self.locate(h.section) {
            Err(e) => Err(e),
            Ok(_) => self.sections[h.section as int].overwrite(h.slot, h.generation),
        }
    }

    /// The arena after that write of `value`.
    pub open spec fn after_overwrite(self, h: HandleView, value: T) -> PoolView<T> {
        if self.locate(h.section) is Err {
            self
        } else {
            self.with_section(
                h.section,
                self.sections[h.section as int].after_overwrite(h.slot, h.generation, value),
            )
        }
    }

    /// Whether the holder of `h` may freeze the slot behind it, and whether the
    /// slot accepts.
    pub open spec fn freeze(self, h: HandleView) -> Result<bool, ArenaError> {
        match self.locate(h.section) {
            Err(e) => Err(e),
            Ok(_) => self.sections[h.section as int].freeze(h.slot, h.generation),
        }
    }

    /// The arena after that attempt.
    pub open spec fn after_freeze(self, h: HandleView) -> PoolView<T> {
        if self.locate(h.section) is Err {
            self
        } else {
            self.with_section(
                h.section,
                self.sections[h.section as int].after_freeze(h.slot, h.generation),
            )
        }
    }

    /// Whether the adjustment `op` of slot `index` in section `id` goes through.
    pub open spec fn control(self, id: nat, index: nat, op: SlotControl) -> Result<
        bool,
        ArenaError,
    > {
        match self.held(id) {
            Err(e) => Err(e),
            Ok(_) => self.sections[id as int].control(index, op),
        }
    }

    /// The arena after that adjustment.
    pub open spec fn after_control(self, id: nat, index: nat, op: SlotControl) -> PoolView<T> {
        if self.held(id) is Err {
            self
        } else {
            self.with_section(id, self.sections[id as int].after_control(index, op))
        }
    }

    /// Whether a write to slot `index` in section `id` can be marked as
    /// abandoned half way, and whether one was in flight.
    pub open spec fn poison(self, id: nat, index: nat) -> Result<bool, ArenaError> {
        match self.held(id) {
            Err(e) => Err(e),
            Ok(_) => self.sections[id as int].poison(index),
        }
    }

    /// The arena after that.
    pub open spec fn after_poison(self, id: nat, index: nat) -> PoolView<T> {
        if self.held(id) is Err {
            self
        } else {
            self.with_section(id, self.sections[id as int].after_poison(index))
        }
    }

    /// Whether slot `index` in section `id` can be recovered, and whether it was
    /// poisoned.
    pub open spec fn recover(self, id: nat, index: nat) -> Result<bool, ArenaError> {
        match self.held(id) {
            Err(e) => Err(e),
            Ok(_) => self.sections[id as int].recover(index),
        }
    }

    /// The arena after that recovery.
    pub open spec fn after_recover(self, id: nat, index: nat) -> PoolView<T> {
        if self.held(id) is Err {
            self
        } else {
            self.with_section(id, self.sections[id as int].after_recover(index))
        }
    }

    /// The arena after the reset at the end of a cycle of section `id`.
    pub open spec fn after_recycle(self, id: nat) -> PoolView<T> {
        if self.held(id) is Err {
            self
        } else {
            self.with_section(id, self.sections[id as int].recycled())
        }
    }
}

/// A section that keeps its id and does not allocate more than it did can take
/// the place of the old one in a well-formed arena.
pub proof fn lemma_with_section_wf<T>(pool: PoolView<T>, id: nat, section: SectionView<T>)
    requires
        pool.wf(),
        id < pool.sections.len(),
        section.wf(),
        section.id == id,
        footprint(section) <= footprint(pool.sections[id as int]),
    ensures
        pool.with_section(id, section).wf(),
        pool.with_section(id, section).size() == pool.size() - footprint(pool.sections[id as int])
            + footprint(section),
{
    lemma_live_capacity_update(pool.sections, id as int, section);
}

/// A read goes through exactly if the handle carries the live generation of
/// the slot it names. This holds of every handle that names a slot with a
/// value in it that is not poisoned; a handle that names no slot, an empty one
/// or a poisoned one reads nothing, whatever generation it carries.
pub proof fn lemma_read_iff_generation_matches<T>(pool: PoolView<T>, h: HandleView)
    requires
        pool.wf(),
        h.section < pool.sections.len(),
        h.slot < pool.sections[h.section as int].slots.len(),
        pool.sections[h.section as int].slots[h.slot as int].data is Some,
        !pool.sections[h.section as int].slots[h.slot as int].poisoned,
    ensures
        ({
            let slot = pool.sections[h.section as int].slots[h.slot as int];
            &&& pool.read(h) is Ok <==> h.generation == slot.generation
            &&& pool.read(h) is Ok ==> pool.read(h) == Ok::<T, ArenaError>(slot.data->Some_0)
        }),
{
}

/// A write makes the handle to the value it overwrites stale and touches no
/// other slot of the arena: the old handle reads `InvalidHandle`, every handle
/// to another slot reads what it read before, and the handle that the write
/// issues reads the new value.
pub proof fn lemma_write_outdates_only_its_slot<T>(
    pool: PoolView<T>,
    id: nat,
    value: T,
    h: HandleView,
)
    requires
        pool.wf(),
        pool.write(id) is Ok,
    ensures
        ({
            let issued = pool.write(id)->Ok_0;
            let after = pool.after_write(id, value);
            &&& issued.section == id
            &&& after.read(issued) == Ok::<T, ArenaError>(value)
            &&& h.section != issued.section || h.slot != issued.slot ==> after.read(h) == pool.read(
                h,
            )
            &&& h.section == issued.section && h.slot == issued.slot && pool.read(h) is Ok
                ==> after.read(h) == Err::<T, ArenaError>(ArenaError::InvalidHandle)
        }),
{
    lemma_push_outdates_only_its_slot(pool.sections[id as int], value, h.slot, h.generation);
}

/// The index of sections only grows, and a section never changes its id: an
/// operation either replaces one section by its next state or appends one.
pub proof fn lemma_index_only_grows<T>(pool: PoolView<T>, id: nat, section: SectionView<T>)
    requires
        pool.wf(),
    ensures
        id < pool.sections.len() ==> pool.with_section(id, section).sections.len()
            == pool.sections.len(),
        pool.grown(section).sections.len() == pool.sections.len() + 1,
        forall|i: int|
            0 <= i < pool.sections.len() ==> (#[trigger] pool.grown(section).sections[i])
                == pool.sections[i],
        id < pool.sections.len() ==> forall|i: int|
            0 <= i < pool.sections.len() && i != id ==> (#[trigger] pool.with_section(
                id,
                section,
            ).sections[i]) == pool.sections[i],
{
}

/// A request for a section has one answer at most.
pub proof fn lemma_request_is_determined<T>(pool: PoolView<T>, a: nat, b: nat)
    requires
        pool.grants(a),
        pool.grants(b),
    ensures
        a == b,
{
}

/// The section that a request is answered with is held by one holder, and the
/// whole of its storage exists.
pub proof fn lemma_request_hands_out_storage<T>(pool: PoolView<T>, id: nat)
    requires
        pool.wf(),
        pool.grants(id),
    ensures
        pool.after_request(id).held(id) is Ok,
        pool.after_request(id).sections[id as int].refs == 1,
        !pool.after_request(id).sections[id as int].released,
        pool.after_request(id).sections[id as int].slots.len() == pool.after_request(
            id,
        ).sections[id as int].capacity,
{
}

/// Giving a handle back frees the storage of its section exactly if it was the
/// last handle; the arena's slot count drops by the section's capacity then,
/// and the section keeps its place in the index.
pub proof fn lemma_release_frees_with_last<T>(pool: PoolView<T>, id: nat)
    requires
        pool.wf(),
        pool.release(id) is Ok,
    ensures
        ({
            let after = pool.after_release(id);
            let section = pool.sections[id as int];
            &&& after.wf()
            &&& after.sections.len() == pool.sections.len()
            &&& pool.release(id)->Ok_0 == (section.refs == 1)
            &&& after.sections[id as int].released == (section.refs == 1)
            &&& after.sections[id as int].refs == section.refs - 1
            &&& section.refs > 1 ==> after.sections[id as int].slots == section.slots
                && after.size() == pool.size()
            &&& section.refs == 1 ==> after.size() == pool.size() - section.capacity
        }),
{
    lemma_with_section_wf(pool, id, pool.sections[id as int].after_release());
}

/// The registry of an arena's sections. It creates sections, keeps them in an
/// index from which none is ever removed, frees the storage of those that
/// nobody holds any more, and knows how many slots are allocated in all.
pub struct APAllocator<T> {
    size: usize,
    sections: Vec<APASection<T>>,
    limit: usize,
    section_size: usize,
}

impl<T> View for APAllocator<T> {
    type V = PoolView<T>;

    closed spec fn view(&self) -> PoolView<T> {
        PoolView {
            sections: Seq::new(self.sections@.len(), |i: int| self.sections@[i]@),
            limit: self.limit as nat,
            section_size: self.section_size as nat,
        }
    }
}

impl<T> APAllocator<T> {
    /// The registry is well formed and its slot count is up to date.
    pub closed spec fn wf(&self) -> bool {
        self@.wf() && self.size == self@.size()
    }

    /// What a well-formed registry holds is well formed.
    pub proof fn lemma_wf(&self)
        requires
            self.wf(),
        ensures
            self@.wf(),
    {
    }

    /// A registry without sections that may grow to `limit` sections and gives
    /// `section_size` slots to each section created on demand.
    pub fn new(section_size: usize, limit: usize) -> (r: APAllocator<T>)
        ensures
            r.wf(),
            r@ == PoolView::<T>::empty(section_size as nat, limit as nat),
    {
        let r = APAllocator { size: 0, sections: Vec::new(), limit, section_size };
        assert(r@.sections =~= Seq::<SectionView<T>>::empty());
        r
    }

    /// The number of sections in the index, released ones included.
    pub fn section_count(&self) -> (r: usize)
        ensures
            r == self@.sections.len(),
    {
        self.sections.len()
    }

    /// The number of slots allocated over all sections.
    pub fn size(&self) -> (r: usize)
        requires
            self.wf(),
        ensures
            r == self@.size(),
    {
        self.size
    }

    /// The number of sections the index may grow to.
    pub fn limit(&self) -> (r: usize)
        ensures
            r == self@.limit,
    {
        self.limit
    }

    /// The capacity of the sections that are created on demand.
    pub fn section_size(&self) -> (r: usize)
        ensures
            r == self@.section_size,
    {
        self.section_size
    }

    /// Section `id`, to look at.
    pub fn section(&self, id: u64) -> (r: Option<&APASection<T>>)
        requires
            self.wf(),
        ensures
            r is Some <==> id < self@.sections.len(),
            r matches Some(section) ==> section@ == self@.sections[id as int] && section@.wf(),
    {
        if id < self.sections.len() as u64 {
            Some(&self.sections[id as usize])
        } else {
            None
        }
    }

    /// Whether one more section of `size` slots fits.
    fn has_room(&self, size: usize) -> (r: bool)
        requires
            self.wf(),
        ensures
            r == self@.can_grow(size as nat),
    {
        self.sections.len() < self.limit && size <= usize::MAX - self.size
    }

    /// Appends `section` to the index.
    fn append(&mut self, section: APASection<T>)
        requires
            old(self).wf(),
            old(self)@.can_grow(section@.capacity),
            section@.wf(),
            section@.id == old(self)@.sections.len(),
            !section@.released,
        ensures
            final(self).wf(),
            final(self)@ == old(self)@.grown(section@),
    {
        proof {
            lemma_live_capacity_push(self@.sections, section@);
        }
        self.size = self.size + section.capacity();
        self.sections.push(section);
        assert(self@.sections =~= old(self)@.sections.push(section@));
    }

    /// Appends a section of `size` untouched slots that nobody holds yet. Says
    /// whether it did: at the limit on sections nothing is added.
    pub fn new_section(&mut self, size: usize) -> (r: bool)
        requires
            old(self).wf(),
        ensures
            final(self).wf(),
            r == old(self)@.can_grow(size as nat),
            r ==> final(self)@ == old(self)@.grown(
                SectionView::fresh(old(self)@.sections.len(), size as nat),
            ),
            !r ==> final(self)@ == old(self)@,
    {
        if !self.has_room(size) {
            return false;
        }
        let id = self.sections.len() as u64;
        self.append(APASection::new(id, size));
        true
    }

    /// Appends a section for values that stay: each of its `size` slots is
    /// sticky, so the reset at the end of a cycle passes the section by. Gives
    /// the id of the new section.
    pub fn new_static_section(&mut self, size: usize) -> (r: Result<u64, ArenaError>)
        requires
            old(self).wf(),
        ensures
            final(self).wf(),
            r is Ok <==> old(self)@.can_grow(size as nat),
            r matches Ok(id) ==> id == old(self)@.sections.len() && final(self)@ == old(
                self,
            )@.grown(SectionView::fresh_static(id as nat, size as nat)),
            r matches Err(e) ==> e == ArenaError::CapacityExhausted && final(self)@ == old(self)@,
    {
        if !self.has_room(size) {
            return Err(ArenaError::CapacityExhausted);
        }
        let id = self.sections.len() as u64;
        self.append(APASection::new_static(id, size));
        Ok(id)
    }

    /// Frees the storage of section `id` if nobody holds the section, and says
    /// whether it did. The section keeps its place in the index, so that the ids
    /// of the others stay what they are.
    pub fn destroy_section(&mut self, id: u64) -> (r: bool)
        requires
            old(self).wf(),
        ensures
            final(self).wf(),
            r == (id < old(self)@.sections.len() && old(self)@.sections[id as int].unclaimed()),
            final(self)@ == old(self)@.after_destroy(id as nat),
    {
        if id >= self.sections.len() as u64 {
            return false;
        }
        let index = id as usize;
        assert(self@.sections[index as int].wf());
        let freed = self.sections[index].capacity();
        let destroyed = self.sections[index].destroy();
        proof {
            let section = old(self)@.sections[index as int].destroyed();
            assert(self@.sections =~= old(self)@.sections.update(index as int, section));
            lemma_with_section_wf(old(self)@, index as nat, section);
        }
        if destroyed {
            self.size = self.size - freed;
        }
        destroyed
    }
}

/// The arena: sections of slots for values of one type, written through section
/// handles and read through handles that are checked against the generation of
/// the slot they name.
pub struct Arena<T> {
    pool: APAllocator<T>,
}

impl<T> View for Arena<T> {
    type V = PoolView<T>;

    closed spec fn view(&self) -> PoolView<T> {
        self.pool@
    }
}

impl<T> Arena<T> {
    /// The arena is well formed.
    pub closed spec fn wf(&self) -> bool {
        self.pool.wf()
    }

    /// What a well-formed arena holds is well formed.
    pub proof fn lemma_wf(&self)
        requires
            self.wf(),
        ensures
            self@.wf(),
    {
    }

    /// An arena with one section of one slot, which holds `data` at generation
    /// 0. Every write to that section overwrites the slot.
    pub fn new(data: T) -> (r: Arena<T>)
        ensures
            r.wf(),
            r@ == PoolView::<T>::empty(1, usize::MAX as nat).grown(SectionView::holding(0, data)),
    {
        let mut pool = APAllocator::new(1, usize::MAX);
        pool.append(APASection::holding(0, data));
        Arena { pool }
    }

    /// An arena with one section of `size` untouched slots, which also gives
    /// `size` slots to every section it creates later.
    pub fn new_sized(size: usize) -> (r: Arena<T>)
        ensures
            r.wf(),
            r@ == PoolView::<T>::empty(size as nat, usize::MAX as nat).grown(
                SectionView::fresh(0, size as nat),
            ),
    {
        let mut pool = APAllocator::new(size, usize::MAX);
        let _ = pool.new_section(size);
        Arena { pool }
    }

    /// An arena without sections, whose sections will have no slots: nothing can
    /// be written to it.
    pub fn new_uninit() -> (r: Arena<T>)
        ensures
            r.wf(),
            r@ == PoolView::<T>::empty(0, usize::MAX as nat),
    {
        Arena { pool: APAllocator::new(0, usize::MAX) }
    }

    /// An arena without sections that creates sections of `section_size` slots
    /// on demand, up to `max_sections` of them.
    pub fn with_limits(section_size: usize, max_sections: usize) -> (r: Arena<T>)
        ensures
            r.wf(),
            r@ == PoolView::<T>::empty(section_size as nat, max_sections as nat),
    {
        Arena { pool: APAllocator::new(section_size, max_sections) }
    }

    /// The number of sections in the index, released ones included.
    pub fn section_count(&self) -> (r: usize)
        ensures
            r == self@.sections.len(),
    {
        self.pool.section_count()
    }

    /// The number of slots allocated over all sections.
    pub fn size(&self) -> (r: usize)
        requires
            self.wf(),
        ensures
            r == self@.size(),
    {
        self.pool.size()
    }

    /// Section `id`, to look at.
    pub fn section(&self, id: u64) -> (r: Option<&APASection<T>>)
        requires
            self.wf(),
        ensures
            r is Some <==> id < self@.sections.len(),
            r matches Some(section) ==> section@ == self@.sections[id as int] && section@.wf(),
    {
        self.pool.section(id)
    }

    /// The place of section `id` in the index.
    fn locate(&self, id: u64) -> (r: Result<usize, ArenaError>)
        requires
            self.wf(),
        ensures
            r matches Ok(index) ==> index == id && self@.locate(id as nat) is Ok,
            r matches Err(e) ==> self@.locate(id as nat) == Err::<(), ArenaError>(e),
    {
        if id >= self.pool.sections.len() as u64 {
            Err(ArenaError::IndexOutOfBounds)
        } else {
            Ok(id as usize)
        }
    }

    /// The place in the index of the section that `section` stands for, provided
    /// somebody holds that section.
    fn held(&self, section: &SectionHandle) -> (r: Result<usize, ArenaError>)
        requires
            self.wf(),
        ensures
            r matches Ok(index) ==> index == section@ && self@.held(section@) is Ok,
            r matches Err(e) ==> self@.held(section@) == Err::<(), ArenaError>(e),
    {
        let index = match self.locate(section.id()) {
            Ok(index) => index,
            Err(e) => return Err(e),
        };
        if self.pool.sections[index].refs() == 0 {
            Err(ArenaError::InvalidHandle)
        } else {
            Ok(index)
        }
    }

    /// Hands out a section to write to: the first one that nobody holds yet, or
    /// a new one if every section is taken. At the limit on sections there is
    /// none to hand out.
    pub fn request_section(&mut self) -> (r: Result<SectionHandle, ArenaError>)
        requires
            old(self).wf(),
        ensures
            final(self).wf(),
            r matches Ok(h) ==> old(self)@.grants(h@) && final(self)@ == old(self)@.after_request(
                h@,
            ),
            r matches Err(e) ==> e == ArenaError::CapacityExhausted && old(self)@.none_unclaimed()
                && !old(self)@.can_grow(old(self)@.section_size) && final(self)@ == old(self)@,
    {
        let mut index: usize = 0;
        while index < self.pool.sections.len()
            invariant
                index <= self.pool.sections@.len(),
                self.wf(),
                *self == *old(self),
                forall|j: int| 0 <= j < index ==> !(#[trigger] self@.sections[j]).unclaimed(),
            decreases self.pool.sections@.len() - index,
        {
            assert(self@.sections[index as int].wf());
            if !self.pool.sections[index].is_released() && self.pool.sections[index].refs() == 0 {
                let _ = self.pool.sections[index].retain();
                proof {
                    let section = old(self)@.sections[index as int].after_retain();
                    assert(self@.sections =~= old(self)@.sections.update(index as int, section));
                    lemma_with_section_wf(old(self)@, index as nat, section);
                }
                return Ok(SectionHandle::issue(index as u64));
            }
            index = index + 1;
        }
        let size = self.pool.section_size;
        if !self.pool.has_room(size) {
            return Err(ArenaError::CapacityExhausted);
        }
        let mut section = APASection::new(index as u64, size);
        let _ = section.retain();
        self.pool.append(section);
        Ok(SectionHandle::issue(index as u64))
    }

    /// Hands out one more handle to the section that `section` stands for.
    pub fn clone_section(&mut self, section: &SectionHandle) -> (r: Result<
        SectionHandle,
        ArenaError,
    >)
        requires
            old(self).wf(),
        ensures
            final(self).wf(),
            final(self)@ == old(self)@.after_retain(section@),
            r matches Ok(h) ==> h@ == section@ && old(self)@.retain(section@) is Ok,
            r matches Err(e) ==> old(self)@.retain(section@) == Err::<(), ArenaError>(e),
    {
        let index = match self.held(section) {
            Ok(index) => index,
            Err(e) => return Err(e),
        };
        let retained = self.pool.sections[index].retain();
        proof {
            let section = old(self)@.sections[index as int].after_retain();
            assert(self@.sections =~= old(self)@.sections.update(index as int, section));
            lemma_with_section_wf(old(self)@, index as nat, section);
        }
        match retained {
            Ok(_) => Ok(SectionHandle::issue(section.id())),
            Err(e) => Err(e),
        }
    }

    /// Takes a handle to a section back. With the last handle the section's
    /// storage is freed, and the result says so; the section keeps its place in
    /// the index.
    pub fn drop_section(&mut self, section: SectionHandle) -> (r: Result<bool, ArenaError>)
        requires
            old(self).wf(),
        ensures
            final(self).wf(),
            final(self)@ == old(self)@.after_release(section@),
            r == old(self)@.release(section@),
    {
        let index = match self.held(&section) {
            Ok(index) => index,
            Err(e) => return Err(e),
        };
        let freed = self.pool.sections[index].capacity();
        let released = self.pool.sections[index].release();
        proof {
            let section = old(self)@.sections[index as int].after_release();
            assert(self@.sections =~= old(self)@.sections.update(index as int, section));
            lemma_with_section_wf(old(self)@, index as nat, section);
        }
        match released {
            Ok(true) => {
                self.pool.size = self.pool.size - freed;
                Ok(true)
            },
            other => other,
        }
    }

    /// The value that `handle` names. The read goes through only if the slot
    /// still holds the value of the handle's generation; it never waits and
    /// never changes anything.
    pub fn read(&self, handle: Handle) -> (r: Result<&T, ArenaError>)
        requires
            self.wf(),
        ensures
            yields(r, self@.read(handle@)),
    {
        let index = match self.locate(handle.section_id()) {
            Ok(index) => index,
            Err(e) => return Err(e),
        };
        self.pool.sections[index].read(handle.slot_index(), handle.generation())
    }

    /// Claims the slot under the cursor of the section that `section` stands
    /// for, provided its flag word is still what the writer last saw. The write
    /// is in flight until `commit`.
    pub fn claim(&mut self, section: &SectionHandle, expected_flags: APAllocFlags) -> (r: Result<
        (),
        ArenaError,
    >)
        requires
            old(self).wf(),
        ensures
            final(self).wf(),
            final(self)@ == old(self)@.after_claim(section@, expected_flags@),
            r == old(self)@.claim(section@, expected_flags@),
    {
        let index = match self.held(section) {
            Ok(index) => index,
            Err(e) => return Err(e),
        };
        let r = self.pool.sections[index].claim(expected_flags);
        proof {
            let section = old(self)@.sections[index as int].after_claim(expected_flags@);
            assert(self@.sections =~= old(self)@.sections.update(index as int, section));
            lemma_with_section_wf(old(self)@, index as nat, section);
        }
        r
    }

    /// Stores `value` in the slot that was claimed, and issues the handle to it.
    /// A slot frozen since the claim refuses, and nothing is stored.
    pub fn commit(&mut self, section: &SectionHandle, value: T) -> (r: Result<Handle, ArenaError>)
        requires
            old(self).wf(),
        ensures
            final(self).wf(),
            final(self)@ == old(self)@.after_commit(section@, value),
            issues(r, old(self)@.commit(section@)),
    {
        let index = match self.held(section) {
            Ok(index) => index,
            Err(e) => return Err(e),
        };
        let r = self.pool.sections[index].commit(value);
        proof {
            let section = old(self)@.sections[index as int].after_commit(value);
            assert(self@.sections =~= old(self)@.sections.update(index as int, section));
            lemma_with_section_wf(old(self)@, index as nat, section);
        }
        r
    }

    /// Writes `value` to the slot under the cursor of the section that `section`
    /// stands for, and issues the handle to it.
    pub fn write(&mut self, section: &SectionHandle, value: T) -> (r: Result<Handle, ArenaError>)
        requires
            old(self).wf(),
        ensures
            final(self).wf(),
            final(self)@ == old(self)@.after_write(section@, value),
            issues(r, old(self)@.write(section@)),
    {
        let index = match self.held(section) {
            Ok(index) => index,
            Err(e) => return Err(e),
        };
        let r = self.pool.sections[index].push(value);
        proof {
            let section = old(self)@.sections[index as int].after_push(value);
            assert(self@.sections =~= old(self)@.sections.update(index as int, section));
            lemma_with_section_wf(old(self)@, index as nat, section);
        }
        r
    }

    /// Writes `data` to the slot under the cursor of the first section, and
    /// issues the handle to it.
    pub fn push(&mut self, data: T) -> (r: Result<Handle, ArenaError>)
        requires
            old(self).wf(),
        ensures
            final(self).wf(),
            final(self)@ == old(self)@.after_push(data),
            issues(r, old(self)@.push()),
    {
        if self.pool.sections.len() == 0 {
            return Err(ArenaError::IndexOutOfBounds);
        }
        let r = self.pool.sections[0].push(data);
        proof {
            let section = old(self)@.sections[0].after_push(data);
            assert(self@.sections =~= old(self)@.sections.update(0, section));
            lemma_with_section_wf(old(self)@, 0, section);
        }
        r
    }

    /// Writes `value` over the value that `handle` names, and issues the handle
    /// to the new value. The old handle is stale from then on.
    pub fn update(&mut self, handle: Handle, value: T) -> (r: Result<Handle, ArenaError>)
        requires
            old(self).wf(),
        ensures
            final(self).wf(),
            final(self)@ == old(self)@.after_overwrite(handle@, value),
            issues(r, old(self)@.overwrite(handle@)),
    {
        let index = match self.locate(handle.section_id()) {
            Ok(index) => index,
            Err(e) => return Err(e),
        };
        let r = self.pool.sections[index].update(handle.slot_index(), handle.generation(), value);
        proof {
            let section = old(self)@.sections[index as int].after_overwrite(
                handle@.slot,
                handle@.generation,
                value,
            );
            assert(self@.sections =~= old(self)@.sections.update(index as int, section));
            lemma_with_section_wf(old(self)@, index as nat, section);
        }
        r
    }

    /// Freezes the slot behind `handle` for reading, and says whether the slot
    /// accepted. A frozen slot turns every writer away until it is recycled.
    pub fn make_read_only(&mut self, handle: Handle) -> (r: Result<bool, ArenaError>)
        requires
            old(self).wf(),
        ensures
            final(self).wf(),
            final(self)@ == old(self)@.after_freeze(handle@),
            r == old(self)@.freeze(handle@),
    {
        let index = match self.locate(handle.section_id()) {
            Ok(index) => index,
            Err(e) => return Err(e),
        };
        let r = self.pool.sections[index].freeze(handle.slot_index(), handle.generation());
        proof {
            let section = old(self)@.sections[index as int].after_freeze(
                handle@.slot,
                handle@.generation,
            );
            assert(self@.sections =~= old(self)@.sections.update(index as int, section));
            lemma_with_section_wf(old(self)@, index as nat, section);
        }
        r
    }

    /// Adjusts the flag word of slot `index` in the section that `section`
    /// stands for, and says whether the word accepted the adjustment.
    pub fn control(&mut self, section: &SectionHandle, index: usize, op: SlotControl) -> (r:
        Result<bool, ArenaError>)
        requires
            old(self).wf(),
        ensures
            final(self).wf(),
            final(self)@ == old(self)@.after_control(section@, index as nat, op),
            r == old(self)@.control(section@, index as nat, op),
    {
        let at = match self.held(section) {
            Ok(at) => at,
            Err(e) => return Err(e),
        };
        let r = self.pool.sections[at].control(index, op);
        proof {
            let section = old(self)@.sections[at as int].after_control(index as nat, op);
            assert(self@.sections =~= old(self)@.sections.update(at as int, section));
            lemma_with_section_wf(old(self)@, at as nat, section);
        }
        r
    }

    /// Marks the write in flight on slot `index` as abandoned half way, and says
    /// whether there was one. From then on every access to the slot fails until
    /// `clear_poison` recovers it.
    pub fn poison(&mut self, section: &SectionHandle, index: usize) -> (r: Result<
        bool,
        ArenaError,
    >)
        requires
            old(self).wf(),
        ensures
            final(self).wf(),
            final(self)@ == old(self)@.after_poison(section@, index as nat),
            r == old(self)@.poison(section@, index as nat),
    {
        let at = match self.held(section) {
            Ok(at) => at,
            Err(e) => return Err(e),
        };
        let r = self.pool.sections[at].poison(index);
        proof {
            let section = old(self)@.sections[at as int].after_poison(index as nat);
            assert(self@.sections =~= old(self)@.sections.update(at as int, section));
            lemma_with_section_wf(old(self)@, at as nat, section);
        }
        r
    }

    /// Recovers slot `index` from poisoning, and says whether it was poisoned.
    pub fn clear_poison(&mut self, section: &SectionHandle, index: usize) -> (r: Result<
        bool,
        ArenaError,
    >)
        requires
            old(self).wf(),
        ensures
            final(self).wf(),
            final(self)@ == old(self)@.after_recover(section@, index as nat),
            r == old(self)@.recover(section@, index as nat),
    {
        let at = match self.held(section) {
            Ok(at) => at,
            Err(e) => return Err(e),
        };
        let r = self.pool.sections[at].clear_poison(index);
        proof {
            let section = old(self)@.sections[at as int].after_recover(index as nat);
            assert(self@.sections =~= old(self)@.sections.update(at as int, section));
            lemma_with_section_wf(old(self)@, at as nat, section);
        }
        r
    }

    /// The reset at the end of a cycle of the section that `section` stands for:
    /// every slot that is not sticky is emptied and moves to its next
    /// generation, which makes every handle into it stale.
    pub fn recycle(&mut self, section: &SectionHandle) -> (r: Result<(), ArenaError>)
        requires
            old(self).wf(),
        ensures
            final(self).wf(),
            final(self)@ == old(self)@.after_recycle(section@),
            r == old(self)@.held(section@),
    {
        let at = match self.held(section) {
            Ok(at) => at,
            Err(e) => return Err(e),
        };
        self.pool.sections[at].recycle();
        proof {
            let section = old(self)@.sections[at as int].recycled();
            assert(self@.sections =~= old(self)@.sections.update(at as int, section));
            lemma_with_section_wf(old(self)@, at as nat, section);
        }
        Ok(())
    }

    /// What `generation` gives, or `None` if the first section shows more than
    /// two generations other than 0.
    pub fn try_generation(&self) -> (r: Option<(u64, u64)>)
        requires
            self.wf(),
        ensures
            r is Some <==> self@.sections.len() == 0 || self@.sections[0].two_generations(),
            r matches Some(pair) ==> if self@.sections.len() == 0 {
                pair == (0u64, 0u64)
            } else {
                (pair.0 as nat, pair.1 as nat) == self@.sections[0].generation_summary()
            },
    {
        if self.pool.sections.len() == 0 {
            return Some((0, 0));
        }
        assert(self@.sections[0].wf());
        self.pool.sections[0].try_generation_summary()
    }

    /// The generations other than 0 that the slots of the first section show, in
    /// the order in which they first appear, with 0 where there is none. A
    /// section that shows a third one has been written out of order; where that
    /// cannot be ruled out, call `try_generation`.
    pub fn generation(&self) -> (r: (u64, u64))
        requires
            self.wf(),
            self@.sections.len() > 0 ==> self@.sections[0].two_generations(),
        ensures
            self@.sections.len() == 0 ==> r == (0u64, 0u64),
            self@.sections.len() > 0 ==> (r.0 as nat, r.1 as nat)
                == self@.sections[0].generation_summary(),
    {
        if self.pool.sections.len() == 0 {
            return (0, 0);
        }
        self.pool.sections[0].generation_summary()
    }

    /// The live generation of slot `idx` of the first section.
    pub fn index_generation(&self, idx: usize) -> (r: u64)
        requires
            self.wf(),
            self@.sections.len() > 0,
            idx < self@.sections[0].slots.len(),
        ensures
            r == self@.sections[0].slots[idx as int].generation,
    {
        self.pool.sections[0].index_generation(idx)
    }
}

} // verus!
