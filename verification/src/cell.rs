//! Shared objects with borrows that are checked when they are taken.
//!
//! Objects live in an [`Arena`] and are reached through handles: an [`Obj`]
//! keeps its object alive, a [`WeakObj`] does not. Before an object is read
//! or written it is acquired, shared or exclusive, at a named place in the
//! source, and the object keeps the sites of the acquisitions that are
//! held. Nothing ever waits: an acquisition that conflicts with one that is
//! still held is a fault of the caller, who can ask first and learn the
//! site of the acquisition that is in the way.

use vstd::prelude::*;
use std::sync::Arc;

verus! {

/// A place in the source.
#[derive(Clone, Copy, PartialEq, Eq, Debug)]
pub struct SourceLocation {
    pub file: &'static str,
    pub line: u32,
    pub column: u32,
}

/// How an object is held at the moment.
#[derive(Clone, Copy, PartialEq, Eq, Debug, Structural)]
pub enum Lock {
    Free,
    /// Held by this many readers, at least one.
    Shared(usize),
    Exclusive,
}

/// An acquisition that is held. It is handed out when an object is
/// acquired and handed back when the acquisition ends.
#[derive(Debug)]
pub struct Guard {
    slot: usize,
}

impl View for Guard {
    type V = int;

    /// The place among the holders of the object where the site of this
    /// acquisition is kept.
    closed spec fn view(&self) -> int {
        self.slot as int
    }
}

/// How many of the first `upto` places hold the site of an acquisition.
pub open spec fn held_count(holders: Seq<Option<SourceLocation>>, upto: int) -> nat
    decreases upto,
{
    if upto <= 0 {
        0
    } else if holders[upto - 1] is Some {
        held_count(holders, upto - 1) + 1
    } else {
        held_count(holders, upto - 1)
    }
}

/// The site of the acquisition taken last among those that are kept in the
/// first `upto` places, if any is.
pub open spec fn last_held(holders: Seq<Option<SourceLocation>>, upto: int) -> Option<
    SourceLocation,
>
    decreases upto,
{
    if upto <= 0 {
        None
    } else if holders[upto - 1] is Some {
        holders[upto - 1]
    } else {
        last_held(holders, upto - 1)
    }
}

/// How many acquisitions a lock stands for.
pub open spec fn lock_count(lock: Lock) -> nat {
    match lock {
        Lock::Free => 0,
        Lock::Shared(readers) => readers as nat,
        Lock::Exclusive => 1,
    }
}

/// Places that are equal up to `upto` hold equally many sites up to there.
proof fn lemma_held_count_prefix(
    a: Seq<Option<SourceLocation>>,
    b: Seq<Option<SourceLocation>>,
    upto: int,
)
    requires
        upto <= a.len(),
        upto <= b.len(),
        forall|i: int| 0 <= i < upto ==> a[i] == b[i],
    ensures
        held_count(a, upto) == held_count(b, upto),
    decreases upto,
{
    if upto > 0 {
        lemma_held_count_prefix(a, b, upto - 1);
    }
}

/// Emptying a place that held a site leaves one site less.
proof fn lemma_held_count_cleared(holders: Seq<Option<SourceLocation>>, slot: int, upto: int)
    requires
        0 <= slot < holders.len(),
        holders[slot] is Some,
        0 <= upto <= holders.len(),
    ensures
        held_count(holders.update(slot, None), upto) + (if slot < upto {
            1nat
        } else {
            0nat
        }) == held_count(holders, upto),
    decreases upto,
{
    if upto > 0 {
        lemma_held_count_cleared(holders, slot, upto - 1);
    }
}

/// Where sites are held, the site taken last is one of them; where none is
/// held, there is none to name.
pub proof fn lemma_last_held(holders: Seq<Option<SourceLocation>>, upto: int)
    requires
        0 <= upto <= holders.len(),
    ensures
        held_count(holders, upto) > 0 <==> last_held(holders, upto) is Some,
        last_held(holders, upto) is Some ==> exists|i: int|
            0 <= i < upto && holders[i] == last_held(holders, upto),
    decreases upto,
{
    if upto > 0 {
        lemma_last_held(holders, upto - 1);
        if holders[upto - 1] is Some {
            assert(holders[upto - 1] == last_held(holders, upto));
        } else if last_held(holders, upto - 1) is Some {
            let i = choose|i: int| 0 <= i < upto - 1 && holders[i] == last_held(holders, upto - 1);
            assert(holders[i] == last_held(holders, upto));
        }
    }
}

/// An object together with the state of its borrows.
pub struct Value<T> {
    holders: Vec<Option<SourceLocation>>,
    lock: Lock,
    inner: T,
}

impl<T> Value<T> {
    pub closed spec fn lock(&self) -> Lock {
        self.lock
    }

    /// The sites of the acquisitions that are held, each at the place that
    /// its guard names, in the order in which they were taken. A place
    /// whose acquisition has ended is empty.
    pub closed spec fn holders(&self) -> Seq<Option<SourceLocation>> {
        self.holders@
    }

    pub closed spec fn inner(&self) -> T {
        self.inner
    }

    /// A reader count of zero is written as `Free`, the object keeps one
    /// site for each acquisition that is held, and none while it is free.
    pub open spec fn wf(&self) -> bool {
        &&& self.lock() matches Lock::Shared(readers) ==> readers > 0
        &&& held_count(self.holders(), self.holders().len() as int) == lock_count(self.lock())
        &&& self.lock() == Lock::Free ==> self.holders().len() == 0
    }

    /// Whether the acquisition of the guard is held on this object.
    pub open spec fn holds(&self, guard: Guard) -> bool {
        0 <= guard@ < self.holders().len() && self.holders()[guard@] is Some
    }

    /// The site of the acquisition taken last among those still held.
    pub open spec fn held_site(&self) -> Option<SourceLocation> {
        last_held(self.holders(), self.holders().len() as int)
    }

    /// An object that nobody holds.
    pub fn new(t: T) -> (value: Value<T>)
        ensures
            value.wf(),
            value.lock() == Lock::Free,
            value.holders() == Seq::<Option<SourceLocation>>::empty(),
            value.inner() == t,
    {
        Value { holders: Vec::new(), lock: Lock::Free, inner: t }
    }

    /// The lock after one more reader was admitted, or `None` if a writer
    /// holds the object or the count of readers is at its end.
    pub open spec fn shared_lock(lock: Lock) -> Option<Lock> {
        match lock {
            Lock::Free => Some(Lock::Shared(1)),
            Lock::Shared(readers) => if readers < usize::MAX {
                Some(Lock::Shared((readers + 1) as usize))
            } else {
                None
            },
            Lock::Exclusive => None,
        }
    }

    /// The lock after a holder let go.
    pub open spec fn released_lock(lock: Lock) -> Lock {
        match lock {
            Lock::Shared(readers) => if readers > 1 {
                Lock::Shared((readers - 1) as usize)
            } else {
                Lock::Free
            },
            _ => Lock::Free,
        }
    }

    /// The holders after the acquisition at `slot` has ended: its place is
    /// emptied, and with the last acquisition all places go.
    pub open spec fn released_holders(
        holders: Seq<Option<SourceLocation>>,
        lock: Lock,
        slot: int,
    ) -> Seq<Option<SourceLocation>> {
        if Self::released_lock(lock) == Lock::Free {
            Seq::empty()
        } else {
            holders.update(slot, None)
        }
    }

    /// How the object is held.
    pub fn lock_state(&self) -> (lock: Lock)
        ensures
            lock == self.lock(),
    {
        self.lock
    }

    /// Whether the object can be acquired for reading: no writer holds it,
    /// and the count of readers has room.
    pub fn can_read(&self) -> (free: bool)
        ensures
            free == (Self::shared_lock(self.lock()) is Some),
    {
        match self.lock {
            Lock::Free => true,
            Lock::Shared(readers) => readers < usize::MAX,
            Lock::Exclusive => false,
        }
    }

    /// Whether the object can be acquired for writing: nobody holds it.
    pub fn can_write(&self) -> (free: bool)
        ensures
            free == (self.lock() == Lock::Free),
    {
        match self.lock {
            Lock::Free => true,
            _ => false,
        }
    }

    /// Where the object was acquired, by the acquisition taken last among
    /// those that are still held. While the object is held, there is such
    /// a site, and it is the site of an acquisition that has not ended.
    pub fn held_at(&self) -> (site: Option<SourceLocation>)
        requires
            self.wf(),
        ensures
            site == self.held_site(),
            site is Some <==> self.lock() != Lock::Free,
            site is Some ==> exists|i: int|
                0 <= i < self.holders().len() && self.holders()[i] == site,
    {
        proof {
            lemma_last_held(self.holders@, self.holders@.len() as int);
        }
        let mut i = self.holders.len();
        while i > 0
            invariant
                self.wf(),
                i <= self.holders@.len(),
                last_held(self.holders@, self.holders@.len() as int) == last_held(
                    self.holders@,
                    i as int,
                ),
                held_count(self.holders@, self.holders@.len() as int) > 0 <==> self.held_site()
                    is Some,
                self.held_site() is Some ==> exists|k: int|
                    0 <= k < self.holders@.len() && self.holders@[k] == self.held_site(),
            decreases i,
        {
            i = i - 1;
            match self.holders[i] {
                Some(site) => {
                    return Some(site);
                },
                None => {},
            }
        }
        None
    }

    /// Acquires the object for reading at `at`. Readers share; the object
    /// must not be held by a writer.
    pub fn read(&mut self, at: SourceLocation) -> (guard: Guard)
        requires
            old(self).wf(),
            Self::shared_lock(old(self).lock()) is Some,
        ensures
            final(self).wf(),
            final(self).inner() == old(self).inner(),
            final(self).lock() == Self::shared_lock(old(self).lock()).unwrap(),
            final(self).holders() == old(self).holders().push(Some(at)),
            guard@ == old(self).holders().len(),
            final(self).holds(guard),
    {
        let lock = match self.lock {
            Lock::Shared(readers) => Lock::Shared(readers + 1),
            _ => Lock::Shared(1),
        };
        self.lock = lock;
        let slot = self.holders.len();
        self.holders.push(Some(at));
        proof {
            lemma_held_count_prefix(
                old(self).holders@,
                self.holders@,
                old(self).holders@.len() as int,
            );
        }
        Guard { slot }
    }

    /// Acquires the object for writing at `at`. Nobody else may hold it.
    pub fn write(&mut self, at: SourceLocation) -> (guard: Guard)
        requires
            old(self).wf(),
            old(self).lock() == Lock::Free,
        ensures
            final(self).wf(),
            final(self).inner() == old(self).inner(),
            final(self).lock() == Lock::Exclusive,
            final(self).holders() == seq![Some(at)],
            guard@ == 0,
            final(self).holds(guard),
    {
        self.lock = Lock::Exclusive;
        self.holders.push(Some(at));
        proof {
            assert(self.holders@ =~= seq![Some(at)]);
            assert(held_count(self.holders@, 0) == 0);
        }
        Guard { slot: 0 }
    }

    /// Ends the acquisition of the guard: a reader leaves, or the writer
    /// does, and its site is no longer kept.
    pub fn release(&mut self, guard: Guard)
        requires
            old(self).wf(),
            old(self).holds(guard),
        ensures
            final(self).wf(),
            final(self).lock() == Self::released_lock(old(self).lock()),
            final(self).holders() == Self::released_holders(
                old(self).holders(),
                old(self).lock(),
                guard@,
            ),
            final(self).inner() == old(self).inner(),
    {
        proof {
            lemma_held_count_cleared(
                self.holders@,
                guard.slot as int,
                self.holders@.len() as int,
            );
        }
        let lock = match self.lock {
            Lock::Shared(readers) => {
                if readers > 1 {
                    Lock::Shared(readers - 1)
                } else {
                    Lock::Free
                }
            },
            _ => Lock::Free,
        };
        self.lock = lock;
        match lock {
            Lock::Free => {
                self.holders.clear();
            },
            _ => {
                self.holders.set(guard.slot, None);
            },
        }
    }

    /// The object.
    pub fn get(&self) -> (inner: &T)
        ensures
            *inner == self.inner(),
    {
        &self.inner
    }

    /// Replaces the object. Only its writer may do that.
    pub fn set(&mut self, t: T)
        requires
            old(self).lock() == Lock::Exclusive,
        ensures
            final(self).inner() == t,
            final(self).lock() == old(self).lock(),
            final(self).holders() == old(self).holders(),
    {
        self.inner = t;
    }
}

/// A handle that keeps its object alive.
#[derive(Debug)]
pub struct Obj {
    index: usize,
    generation: u64,
}

/// A handle that does not keep its object alive.
#[derive(Clone, Copy, Debug)]
pub struct WeakObj {
    index: usize,
    generation: u64,
}

/// The place of an object in its arena, and which of the objects that ever
/// stood there it is.
pub struct Key {
    pub index: int,
    pub generation: int,
}

impl View for Obj {
    type V = Key;

    closed spec fn view(&self) -> Key {
        Key { index: self.index as int, generation: self.generation as int }
    }
}

impl View for WeakObj {
    type V = Key;

    closed spec fn view(&self) -> Key {
        Key { index: self.index as int, generation: self.generation as int }
    }
}

/// One place of an arena.
pub struct Slot<T> {
    generation: u64,
    strong: usize,
    value: Option<Value<T>>,
}

impl<T> Slot<T> {
    pub closed spec fn generation(&self) -> int {
        self.generation as int
    }

    /// The number of strong handles to the object of this slot.
    pub closed spec fn strong(&self) -> nat {
        self.strong as nat
    }

    pub closed spec fn value(&self) -> Option<Value<T>> {
        self.value
    }

    /// An object stands in the slot exactly while strong handles exist.
    pub open spec fn wf(&self) -> bool {
        &&& self.value() is Some <==> self.strong() > 0
        &&& self.value() matches Some(value) ==> value.wf()
    }
}

/// The home of shared objects of one type.
pub struct Arena<T> {
    slots: Vec<Slot<T>>,
}

impl<T> View for Arena<T> {
    type V = Seq<Slot<T>>;

    closed spec fn view(&self) -> Seq<Slot<T>> {
        self.slots@
    }
}

impl<T> Arena<T> {
    pub open spec fn wf(&self) -> bool {
        forall|i: int| 0 <= i < self@.len() ==> (#[trigger] self@[i]).wf()
    }

    /// Whether the object that `key` names still exists.
    pub open spec fn alive(&self, key: Key) -> bool {
        &&& 0 <= key.index < self@.len()
        &&& self@[key.index].generation() == key.generation
        &&& self@[key.index].value() is Some
    }

    /// The object that `key` names, with the state of its borrows.
    pub open spec fn cell(&self, key: Key) -> Value<T> {
        self@[key.index].value().unwrap()
    }

    /// Whether `after` is this arena with nothing changed but the slot at
    /// `index`.
    pub open spec fn same_but(&self, after: &Arena<T>, index: int) -> bool {
        &&& after@.len() == self@.len()
        &&& forall|i: int| 0 <= i < self@.len() && i != index ==> after@[i] == self@[i]
    }

    /// An arena without objects.
    pub fn new() -> (arena: Arena<T>)
        ensures
            arena.wf(),
            arena@.len() == 0,
    {
        Arena { slots: Vec::new() }
    }

    /// Whether the place at `index` can take a new object: it stands empty
    /// and has not seen as many objects as can be told apart.
    pub open spec fn vacant(&self, index: int) -> bool {
        &&& 0 <= index < self@.len()
        &&& self@[index].value() is None
        &&& self@[index].generation() < u64::MAX
    }

    /// The first place that can take a new object, if there is one.
    fn free_slot(&self) -> (found: Option<usize>)
        requires
            self.wf(),
        ensures
            match found {
                Some(index) => self.vacant(index as int) && forall|j: int|
                    0 <= j < index ==> !self.vacant(j),
                None => forall|j: int| !self.vacant(j),
            },
    {
        let mut i: usize = 0;
        while i < self.slots.len()
            invariant
                i <= self.slots@.len(),
                forall|j: int| 0 <= j < i ==> !self.vacant(j),
            decreases self.slots@.len() - i,
        {
            if self.slots[i].value.is_none() && self.slots[i].generation < u64::MAX {
                return Some(i);
            }
            i = i + 1;
        }
        None
    }
}

impl Obj {
    /// Puts `value` into the arena and hands out the first handle to it.
    pub fn new<T>(arena: &mut Arena<T>, value: T) -> (obj: Obj)
        requires
            old(arena).wf(),
        ensures
            final(arena).wf(),
            final(arena).alive(obj@),
            !old(arena).alive(obj@),
            final(arena)@[obj@.index].strong() == 1,
            final(arena).cell(obj@).inner() == value,
            final(arena).cell(obj@).lock() == Lock::Free,
            final(arena).cell(obj@).holders() == Seq::<Option<SourceLocation>>::empty(),
            final(arena)@.len() >= old(arena)@.len(),
            forall|i: int|
                0 <= i < old(arena)@.len() && i != obj@.index ==> final(arena)@[i] == old(arena)@[i],
    {
        match arena.free_slot() {
            Some(index) => {
                let generation = arena.slots[index].generation + 1;
                arena.slots.set(
                    index,
                    Slot { generation, strong: 1, value: Some(Value::new(value)) },
                );
                Obj { index, generation }
            },
            None => {
                let index = arena.slots.len();
                arena.slots.push(Slot { generation: 0, strong: 1, value: Some(Value::new(value)) });
                Obj { index, generation: 0 }
            },
        }
    }

    /// A weak handle to the same object.
    pub fn downgrade(&self) -> (weak: WeakObj)
        ensures
            weak@ == self@,
    {
        WeakObj { index: self.index, generation: self.generation }
    }

    /// Whether two handles name the same object.
    pub fn same(&self, other: &Obj) -> (same: bool)
        ensures
            same == (self@ == other@),
    {
        self.index == other.index && self.generation == other.generation
    }

    /// One more strong handle to the same object, or `None` if the count of
    /// handles is at its end.
    pub fn share<T>(&self, arena: &mut Arena<T>) -> (obj: Option<Obj>)
        requires
            old(arena).wf(),
            old(arena).alive(self@),
        ensures
            final(arena).wf(),
            old(arena).same_but(final(arena), self@.index),
            final(arena)@[self@.index].generation() == self@.generation,
            final(arena)@[self@.index].value() == old(arena)@[self@.index].value(),
            match obj {
                Some(shared) => shared@ == self@ && final(arena)@[self@.index].strong() == old(
                    arena,
                )@[self@.index].strong() + 1,
                None => old(arena)@[self@.index].strong() == usize::MAX && *final(arena) == *old(
                    arena,
                ),
            },
    {
        let strong = arena.slots[self.index].strong;
        if strong == usize::MAX {
            return None;
        }
        let ghost before = arena@;
        let mut slot = Slot { generation: 0, strong: 0, value: None };
        swap_slot(&mut arena.slots, self.index, &mut slot);
        slot.strong = strong + 1;
        swap_slot(&mut arena.slots, self.index, &mut slot);
        Some(Obj { index: self.index, generation: self.generation })
    }

    /// Gives the handle up. The object goes with its last strong handle.
    pub fn drop<T>(self, arena: &mut Arena<T>)
        requires
            old(arena).wf(),
            old(arena).alive(self@),
        ensures
            final(arena).wf(),
            old(arena).same_but(final(arena), self@.index),
            final(arena)@[self@.index].generation() == self@.generation,
            final(arena)@[self@.index].strong() == old(arena)@[self@.index].strong() - 1,
            final(arena).alive(self@) <==> old(arena)@[self@.index].strong() > 1,
            final(arena).alive(self@) ==> final(arena).cell(self@) == old(arena).cell(self@),
    {
        let mut slot = Slot { generation: 0, strong: 0, value: None };
        swap_slot(&mut arena.slots, self.index, &mut slot);
        slot.strong = slot.strong - 1;
        if slot.strong == 0 {
            slot.value = None;
        }
        swap_slot(&mut arena.slots, self.index, &mut slot);
    }

    /// How the object is held.
    pub fn lock<T>(&self, arena: &Arena<T>) -> (lock: Lock)
        requires
            arena.alive(self@),
        ensures
            lock == arena.cell(self@).lock(),
    {
        arena.slots[self.index].value.as_ref().unwrap().lock_state()
    }

    /// Whether the object can be acquired for reading.
    pub fn can_get<T>(&self, arena: &Arena<T>) -> (free: bool)
        requires
            arena.alive(self@),
        ensures
            free == (Value::<T>::shared_lock(arena.cell(self@).lock()) is Some),
    {
        arena.slots[self.index].value.as_ref().unwrap().can_read()
    }

    /// Whether the object can be acquired for writing.
    pub fn can_get_mut<T>(&self, arena: &Arena<T>) -> (free: bool)
        requires
            arena.alive(self@),
        ensures
            free == (arena.cell(self@).lock() == Lock::Free),
    {
        arena.slots[self.index].value.as_ref().unwrap().can_write()
    }

    /// Where the object was acquired, by the acquisition taken last among
    /// those that are still held: the site to name when an acquisition
    /// conflicts.
    pub fn held_at<T>(&self, arena: &Arena<T>) -> (site: Option<SourceLocation>)
        requires
            arena.wf(),
            arena.alive(self@),
        ensures
            site == arena.cell(self@).held_site(),
            site is Some <==> arena.cell(self@).lock() != Lock::Free,
            site is Some ==> exists|i: int|
                0 <= i < arena.cell(self@).holders().len() && arena.cell(self@).holders()[i]
                    == site,
    {
        arena.slots[self.index].value.as_ref().unwrap().held_at()
    }

    /// Acquires the object for reading at `at`. The object must not be
    /// held by a writer: an acquisition that conflicts is a fault of the
    /// caller, and [`Obj::held_at`] names the site it conflicts with.
    pub fn get<T>(&self, arena: &mut Arena<T>, at: SourceLocation) -> (guard: Guard)
        requires
            old(arena).wf(),
            old(arena).alive(self@),
            Value::<T>::shared_lock(old(arena).cell(self@).lock()) is Some,
        ensures
            final(arena).wf(),
            final(arena).alive(self@),
            old(arena).same_but(final(arena), self@.index),
            final(arena)@[self@.index].strong() == old(arena)@[self@.index].strong(),
            final(arena).cell(self@).inner() == old(arena).cell(self@).inner(),
            final(arena).cell(self@).lock() == Value::<T>::shared_lock(
                old(arena).cell(self@).lock(),
            ).unwrap(),
            final(arena).cell(self@).holders() == old(arena).cell(self@).holders().push(Some(at)),
            final(arena).cell(self@).holds(guard),
            guard@ == old(arena).cell(self@).holders().len(),
    {
        let mut slot = Slot { generation: 0, strong: 0, value: None };
        swap_slot(&mut arena.slots, self.index, &mut slot);
        let mut value = slot.value.unwrap();
        let guard = value.read(at);
        slot.value = Some(value);
        swap_slot(&mut arena.slots, self.index, &mut slot);
        guard
    }

    /// Acquires the object for writing at `at`. Nobody may hold the
    /// object: an acquisition that conflicts is a fault of the caller, and
    /// [`Obj::held_at`] names the site it conflicts with.
    pub fn get_mut<T>(&self, arena: &mut Arena<T>, at: SourceLocation) -> (guard: Guard)
        requires
            old(arena).wf(),
            old(arena).alive(self@),
            old(arena).cell(self@).lock() == Lock::Free,
        ensures
            final(arena).wf(),
            final(arena).alive(self@),
            old(arena).same_but(final(arena), self@.index),
            final(arena)@[self@.index].strong() == old(arena)@[self@.index].strong(),
            final(arena).cell(self@).inner() == old(arena).cell(self@).inner(),
            final(arena).cell(self@).lock() == Lock::Exclusive,
            final(arena).cell(self@).holders() == seq![Some(at)],
            final(arena).cell(self@).holds(guard),
            guard@ == 0,
    {
        let mut slot = Slot { generation: 0, strong: 0, value: None };
        swap_slot(&mut arena.slots, self.index, &mut slot);
        let mut value = slot.value.unwrap();
        let guard = value.write(at);
        slot.value = Some(value);
        swap_slot(&mut arena.slots, self.index, &mut slot);
        guard
    }

    /// Ends an acquisition that `get` or `get_mut` granted.
    pub fn release<T>(&self, arena: &mut Arena<T>, guard: Guard)
        requires
            old(arena).wf(),
            old(arena).alive(self@),
            old(arena).cell(self@).holds(guard),
        ensures
            final(arena).wf(),
            final(arena).alive(self@),
            old(arena).same_but(final(arena), self@.index),
            final(arena)@[self@.index].strong() == old(arena)@[self@.index].strong(),
            final(arena).cell(self@).inner() == old(arena).cell(self@).inner(),
            final(arena).cell(self@).lock() == Value::<T>::released_lock(
                old(arena).cell(self@).lock(),
            ),
            final(arena).cell(self@).holders() == Value::<T>::released_holders(
                old(arena).cell(self@).holders(),
                old(arena).cell(self@).lock(),
                guard@,
            ),
    {
        let mut slot = Slot { generation: 0, strong: 0, value: None };
        swap_slot(&mut arena.slots, self.index, &mut slot);
        let mut value = slot.value.unwrap();
        value.release(guard);
        slot.value = Some(value);
        swap_slot(&mut arena.slots, self.index, &mut slot);
    }

    /// The object itself.
    pub fn read<'a, T>(&self, arena: &'a Arena<T>) -> (inner: &'a T)
        requires
            arena.alive(self@),
        ensures
            *inner == arena.cell(self@).inner(),
    {
        arena.slots[self.index].value.as_ref().unwrap().get()
    }

    /// Replaces the object, which must be held for writing.
    pub fn write<T>(&self, arena: &mut Arena<T>, t: T)
        requires
            old(arena).wf(),
            old(arena).alive(self@),
            old(arena).cell(self@).lock() == Lock::Exclusive,
        ensures
            final(arena).wf(),
            final(arena).alive(self@),
            old(arena).same_but(final(arena), self@.index),
            final(arena)@[self@.index].strong() == old(arena)@[self@.index].strong(),
            final(arena).cell(self@).inner() == t,
            final(arena).cell(self@).lock() == Lock::Exclusive,
            final(arena).cell(self@).holders() == old(arena).cell(self@).holders(),
    {
        let mut slot = Slot { generation: 0, strong: 0, value: None };
        swap_slot(&mut arena.slots, self.index, &mut slot);
        let mut value = slot.value.unwrap();
        value.set(t);
        slot.value = Some(value);
        swap_slot(&mut arena.slots, self.index, &mut slot);
    }
}

/// Exchanges a slot of the arena with the slot given.
fn swap_slot<T>(slots: &mut Vec<Slot<T>>, index: usize, slot: &mut Slot<T>)
    requires
        index < old(slots)@.len(),
    ensures
        final(slots)@ == old(slots)@.update(index as int, *old(slot)),
        *final(slot) == old(slots)@[index as int],
{
    std::mem::swap(&mut slots[index], slot);
}

impl WeakObj {
    /// Whether the object still exists.
    pub fn is_alive<T>(&self, arena: &Arena<T>) -> (alive: bool)
        ensures
            alive == arena.alive(self@),
    {
        self.index < arena.slots.len() && arena.slots[self.index].generation == self.generation
            && arena.slots[self.index].value.is_some()
    }

    /// A look at the object, if it still exists.
    pub fn peek<'a, T>(&self, arena: &'a Arena<T>) -> (inner: Option<&'a T>)
        ensures
            match inner {
                Some(inner) => arena.alive(self@) && *inner == arena.cell(self@).inner(),
                None => !arena.alive(self@),
            },
    {
        if self.is_alive(arena) {
            Some(arena.slots[self.index].value.as_ref().unwrap().get())
        } else {
            None
        }
    }

    /// A strong handle to the object, if it still exists.
    pub fn try_upgrade<T>(&self, arena: &mut Arena<T>) -> (obj: Option<Obj>)
        requires
            old(arena).wf(),
        ensures
            final(arena).wf(),
            !old(arena).alive(self@) ==> obj is None && *final(arena) == *old(arena),
            old(arena).alive(self@) ==> {
                &&& old(arena).same_but(final(arena), self@.index)
                &&& final(arena)@[self@.index].generation() == self@.generation
                &&& final(arena)@[self@.index].value() == old(arena)@[self@.index].value()
                &&& match obj {
                    Some(strong) => strong@ == self@ && final(arena)@[self@.index].strong() == old(
                        arena,
                    )@[self@.index].strong() + 1,
                    None => old(arena)@[self@.index].strong() == usize::MAX && *final(arena)
                        == *old(arena),
                }
            },
    {
        if self.is_alive(arena) {
            let handle = Obj { index: self.index, generation: self.generation };
            handle.share(arena)
        } else {
            None
        }
    }

    /// A strong handle to the object, which must still exist and have room
    /// for one more handle.
    pub fn upgrade<T>(&self, arena: &mut Arena<T>) -> (obj: Obj)
        requires
            old(arena).wf(),
            old(arena).alive(self@),
            old(arena)@[self@.index].strong() < usize::MAX,
        ensures
            final(arena).wf(),
            obj@ == self@,
            old(arena).same_but(final(arena), self@.index),
            final(arena)@[self@.index].generation() == self@.generation,
            final(arena)@[self@.index].value() == old(arena)@[self@.index].value(),
            final(arena)@[self@.index].strong() == old(arena)@[self@.index].strong() + 1,
    {
        let found = self.try_upgrade(arena);
        found.unwrap()
    }

    /// Whether two handles name the same object.
    pub fn same(&self, other: &WeakObj) -> (same: bool)
        ensures
            same == (self@ == other@),
    {
        self.index == other.index && self.generation == other.generation
    }
}

/// A value that is shared and never changed.
pub struct Res<T> {
    pub inner: Arc<T>,
}

/// Something to tell one listener.
#[derive(Clone, Copy, PartialEq, Eq, Debug)]
pub struct Notice<T> {
    /// The listener, by the number that `add_listener` gave it.
    pub listener: usize,
    pub param: T,
}

/// A list of listeners and the notices that are owed to them. Emitting calls
/// nobody: the notices wait in a queue until they are taken.
pub struct Event<T> {
    pub listeners: usize,
    pub pending: Vec<Notice<T>>,
}

impl<T: Copy> Event<T> {
    /// The notices that one emission adds: one for each of the first `upto`
    /// listeners, in the order in which they were added.
    pub open spec fn notices(upto: int, param: T) -> Seq<Notice<T>>
        decreases upto,
    {
        if upto <= 0 {
            Seq::empty()
        } else {
            Self::notices(upto - 1, param).push(Notice { listener: (upto - 1) as usize, param })
        }
    }

    /// An event without listeners.
    pub fn new() -> (event: Event<T>)
        ensures
            event.listeners == 0,
            event.pending@ == Seq::<Notice<T>>::empty(),
    {
        Event { listeners: 0, pending: Vec::new() }
    }

    /// Adds a listener and says which number it has.
    pub fn add_listener(&mut self) -> (listener: usize)
        requires
            old(self).listeners < usize::MAX,
        ensures
            listener == old(self).listeners,
            final(self).listeners == old(self).listeners + 1,
            final(self).pending == old(self).pending,
    {
        let listener = self.listeners;
        self.listeners = self.listeners + 1;
        listener
    }

    /// Owes `param` to every listener, in the order in which they were added.
    pub fn emit(&mut self, param: &T)
        ensures
            final(self).listeners == old(self).listeners,
            final(self).pending@ == old(self).pending@ + Self::notices(
                old(self).listeners as int,
                *param,
            ),
    {
        let mut i: usize = 0;
        while i < self.listeners
            invariant
                i <= self.listeners,
                self.listeners == old(self).listeners,
                self.pending@ == old(self).pending@ + Self::notices(i as int, *param),
            decreases self.listeners - i,
        {
            self.pending.push(Notice { listener: i, param: *param });
            i = i + 1;
            proof {
                assert(self.pending@ =~= old(self).pending@ + Self::notices(i as int, *param));
            }
        }
    }

    /// Hands out the notices that are owed, oldest first, and forgets them.
    pub fn take(&mut self) -> (notices: Vec<Notice<T>>)
        ensures
            notices@ == old(self).pending@,
            final(self).pending@ == Seq::<Notice<T>>::empty(),
            final(self).listeners == old(self).listeners,
    {
        let mut notices: Vec<Notice<T>> = Vec::new();
        std::mem::swap(&mut notices, &mut self.pending);
        notices
    }
}

} // verus!
