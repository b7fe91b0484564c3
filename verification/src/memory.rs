//! Bump-allocated arenas and the handles they give out.
use core::marker::PhantomData;
use vstd::prelude::*;

verus! {

/// Why an allocation was refused.
#[derive(Clone, Copy, Debug, PartialEq, Eq, Structural)]
pub enum AllocError {
    /// The arena has too little room left for the object.
    OutOfMemory,
    /// The requested size cannot be represented.
    BadRequest,
}

/// Takes the address of the byte that an identity keeps, by `ptr::from_ref`
/// and `addr` of the standard library. Which number comes back depends on
/// where the byte lies, so nothing is promised of it.
#[verifier::external_body]
fn address_of(anchor: &Box<u8>) -> (number: usize) {
    std::ptr::from_ref::<u8>(&**anchor).addr()
}

/// What tells one arena from every other: a number that the arena's handles
/// carry.
///
/// The number is the address of a byte that the identity keeps to itself for
/// as long as it lives, so no two identities that live at one time have the
/// same number. Contracts know the number only by name: they never say that
/// two identities differ, and never that they agree unless they are one.
#[derive(Debug, PartialEq, Eq)]
pub struct Identity {
    anchor: Box<u8>,
    number: usize,
}

impl Identity {
    /// The number of this identity.
    pub closed spec fn number(&self) -> usize {
        self.number
    }

    /// A new identity.
    pub fn fresh() -> (identity: Identity) {
        let anchor = Box::new(0u8);
        let number = address_of(&anchor);
        Identity { anchor, number }
    }

    /// The number of this identity.
    pub fn get(&self) -> (number: usize)
        ensures
            number == self.number(),
    {
        self.number
    }
}

/// An opaque, copyable handle to an object of type `T` in an arena.
///
/// A handle is the number of its arena's identity and the ordinal of the
/// object among those that the arena has allocated. Two handles are
/// identical exactly when both agree: when they name the same object of the
/// same arena.
#[derive(Debug, PartialEq, Eq)]
pub struct Ptr<T> {
    arena: usize,
    index: usize,
    marker: PhantomData<T>,
}

impl<T> Clone for Ptr<T> {
    fn clone(&self) -> (r: Self)
        ensures
            r == *self,
    {
        Ptr { arena: self.arena, index: self.index, marker: PhantomData }
    }
}

impl<T> Copy for Ptr<T> {

}

impl<T> Ptr<T> {
    /// The number of the identity of the arena that this handle is of.
    pub closed spec fn arena(&self) -> usize {
        self.arena
    }

    /// The ordinal of the object this handle names.
    pub closed spec fn index(&self) -> usize {
        self.index
    }

    /// The handle of the object with the given ordinal in the arena whose
    /// identity has the given number.
    pub closed spec fn at(arena: usize, index: usize) -> Ptr<T> {
        Ptr { arena, index, marker: PhantomData }
    }

    /// Handles are identical exactly when their arenas and their ordinals
    /// agree.
    pub broadcast proof fn lemma_identity(p: Ptr<T>, q: Ptr<T>)
        ensures
            #![trigger p.index(), q.index()]
            (p.arena() == q.arena() && p.index() == q.index()) == (p == q),
            Ptr::<T>::at(p.arena(), p.index()) == p,
    {
    }

    /// The arena and the ordinal of a handle made from them are those.
    pub broadcast proof fn lemma_at_index(arena: usize, index: usize)
        ensures
            (#[trigger] Ptr::<T>::at(arena, index)).index() == index,
            Ptr::<T>::at(arena, index).arena() == arena,
    {
    }

    /// The handle of the object with the given ordinal in the arena whose
    /// identity has the given number.
    pub(crate) fn from_index(arena: usize, index: usize) -> (p: Ptr<T>)
        ensures
            p == Ptr::<T>::at(arena, index),
            p.arena() == arena,
            p.index() == index,
    {
        Ptr { arena, index, marker: PhantomData }
    }

    /// The ordinal of the object this handle names.
    pub(crate) fn ordinal(&self) -> (i: usize)
        ensures
            i == self.index(),
    {
        self.index
    }

    /// Handle identity comparison: whether both handles name the same
    /// object of the same arena.
    pub fn is(&self, other: Ptr<T>) -> (same: bool)
        ensures
            same == (self.arena() == other.arena() && self.index() == other.index()),
            same == (*self == other),
    {
        self.arena == other.arena && self.index == other.index
    }
}

/// The bump offset that an allocation of `object_size` bytes leaves behind in a
/// region of `size` bytes whose offset is `bump`, where the object fits.
pub open spec fn bump_after(size: nat, bump: nat, object_size: nat) -> Option<nat> {
    if bump + object_size <= size {
        Some(bump + object_size)
    } else {
        None
    }
}

/// Decides one bump allocation: the offset after it, or `OutOfMemory` where the
/// object does not fit in what is left of the region.
pub fn next_bump(size: usize, bump: usize, object_size: usize) -> (r: Result<usize, AllocError>)
    ensures
        match bump_after(size as nat, bump as nat, object_size as nat) {
            Some(next) => r == Ok::<usize, AllocError>(next as usize) && next <= size,
            None => r == Err::<usize, AllocError>(AllocError::OutOfMemory),
        },
{
    if bump <= size && object_size <= size - bump {
        Ok(bump + object_size)
    } else {
        Err(AllocError::OutOfMemory)
    }
}

/// What every allocator of `T` objects offers: objects go in, handles come out,
/// and nothing that was allocated ever moves or leaves.
pub trait Allocator<T>: Sized {
    /// The allocator's own consistency.
    spec fn inv(&self) -> bool;

    /// The number of the allocator's identity, which its handles carry.
    spec fn identity(&self) -> usize;

    /// The objects allocated so far, each at the ordinal of its handle.
    spec fn objects(&self) -> Seq<T>;

    /// Whether one more object fits.
    spec fn has_room(&self) -> bool;

    /// Moves `object` into the allocator and returns its handle, or fails with
    /// `OutOfMemory` and changes nothing, the bump offset included.
    fn allocate(&mut self, object: T) -> (r: Result<Ptr<T>, AllocError>)
        requires
            old(self).inv(),
        ensures
            final(self).inv(),
            final(self).identity() == old(self).identity(),
            old(self).has_room() ==> r is Ok && r->Ok_0.arena() == old(self).identity()
                && r->Ok_0.index() == old(self).objects().len(),
            old(self).has_room() ==> final(self).objects() == old(self).objects().push(object),
            !old(self).has_room() ==> r == Err::<Ptr<T>, AllocError>(AllocError::OutOfMemory)
                && *final(self) == *old(self),
    ;
}

/// An arena as contracts speak of it: the number of its identity, the views
/// of its objects in the order of their allocation, the capacity, the bump
/// offset, and the size of one object, all three in bytes.
pub struct ArenaView<V> {
    pub identity: usize,
    pub objects: Seq<V>,
    pub size: nat,
    pub bump: nat,
    pub unit: nat,
}

impl<V> ArenaView<V> {
    /// The number of objects.
    pub open spec fn len(self) -> nat {
        self.objects.len()
    }

    /// Whether a handle with the given arena and ordinal names an object of
    /// this arena.
    pub open spec fn names(self, arena: usize, index: usize) -> bool {
        arena == self.identity && index < self.objects.len()
    }

    /// Whether one more object fits: there is room behind the bump offset,
    /// and a handle is left to name the object.
    pub open spec fn has_room(self) -> bool {
        &&& self.bump + self.unit <= self.size
        &&& self.objects.len() < usize::MAX
    }

    /// Whether `count` more objects fit.
    pub open spec fn has_room_for(self, count: nat) -> bool {
        &&& self.bump + count * self.unit <= self.size
        &&& self.objects.len() + count <= usize::MAX
    }

    /// The arena after the allocation of `object`.
    pub open spec fn push(self, object: V) -> ArenaView<V> {
        ArenaView { objects: self.objects.push(object), bump: self.bump + self.unit, ..self }
    }

    /// The arena with `object` in place of the object with ordinal `index`.
    pub open spec fn update(self, index: int, object: V) -> ArenaView<V> {
        ArenaView { objects: self.objects.update(index, object), ..self }
    }
}

/// A region of `size` bytes that hands out room for objects of type `T` by
/// advancing a bump offset. Objects are never moved and never freed one by one.
pub struct Arena<T> {
    identity: Identity,
    slots: Vec<T>,
    size: usize,
    bump: usize,
}

impl<T> Arena<T> {
    /// The number of the region's identity.
    pub closed spec fn identity(&self) -> usize {
        self.identity.number()
    }

    /// The region's capacity in bytes.
    pub closed spec fn size(&self) -> nat {
        self.size as nat
    }

    /// The bump offset: the number of bytes handed out so far.
    pub closed spec fn bump(&self) -> nat {
        self.bump as nat
    }

    /// The objects in the region, in the order of their allocation.
    pub closed spec fn contents(&self) -> Seq<T> {
        self.slots@
    }

    /// The bump offset never passes the capacity, and it stands exactly behind
    /// the last object.
    pub closed spec fn wf(&self) -> bool {
        &&& self.bump <= self.size
        &&& self.bump == self.slots@.len() * vstd::layout::size_of::<T>()
    }

    /// Whether `ptr` names an object of this region.
    pub open spec fn holds(&self, ptr: Ptr<T>) -> bool {
        ptr.arena() == self.identity() && ptr.index() < self.contents().len()
    }

    /// The byte offset at which the object named by `ptr` lies.
    pub open spec fn offset_of(&self, ptr: Ptr<T>) -> nat {
        (ptr.index() * vstd::layout::size_of::<T>()) as nat
    }

    /// An empty region with a capacity of `size` bytes and an identity of
    /// its own.
    pub fn new(size: usize) -> (arena: Arena<T>)
        ensures
            arena.wf(),
            arena.size() == size,
            arena.bump() == 0,
            arena.contents() == Seq::<T>::empty(),
    {
        Arena { identity: Identity::fresh(), slots: Vec::new(), size, bump: 0 }
    }

    /// The region's capacity in bytes.
    pub fn capacity(&self) -> (n: usize)
        ensures
            n == self.size(),
    {
        self.size
    }

    /// The bump offset: the number of bytes handed out so far.
    pub fn bump_offset(&self) -> (n: usize)
        ensures
            n == self.bump(),
    {
        self.bump
    }

    /// The number of objects allocated so far.
    pub fn len(&self) -> (n: usize)
        ensures
            n == self.contents().len(),
    {
        self.slots.len()
    }

    /// Whether `ptr` names an object of this region.
    pub fn contains(&self, ptr: Ptr<T>) -> (b: bool)
        ensures
            b == self.holds(ptr),
    {
        ptr.arena == self.identity.get() && ptr.index < self.slots.len()
    }

    /// The object that `ptr` names.
    pub fn get(&self, ptr: Ptr<T>) -> (object: &T)
        requires
            self.holds(ptr),
        ensures
            *object == self.contents()[ptr.index() as int],
    {
        &self.slots[ptr.index]
    }

    /// Replaces the object that `ptr` names; nothing else changes.
    pub fn set(&mut self, ptr: Ptr<T>, object: T)
        requires
            old(self).wf(),
            old(self).holds(ptr),
        ensures
            final(self).wf(),
            final(self).identity() == old(self).identity(),
            final(self).size() == old(self).size(),
            final(self).bump() == old(self).bump(),
            final(self).contents() == old(self).contents().update(ptr.index() as int, object),
    {
        self.slots.set(ptr.index, object);
    }

    /// Mutable access to the object that `ptr` names; nothing else changes.
    pub fn get_mut(&mut self, ptr: Ptr<T>) -> (object: &mut T)
        requires
            old(self).wf(),
            old(self).holds(ptr),
        ensures
            *object == old(self).contents()[ptr.index() as int],
            final(self).wf(),
            final(self).identity() == old(self).identity(),
            final(self).size() == old(self).size(),
            final(self).bump() == old(self).bump(),
            final(self).contents() == old(self).contents().update(
                ptr.index() as int,
                *final(object),
            ),
    {
        &mut self.slots[ptr.index]
    }
}

impl<T: View> View for Arena<T> {
    type V = ArenaView<T::V>;

    open spec fn view(&self) -> ArenaView<T::V> {
        ArenaView {
            identity: self.identity(),
            objects: Seq::new(self.contents().len(), |i: int| self.contents()[i]@),
            size: self.size(),
            bump: self.bump(),
            unit: vstd::layout::size_of::<T>(),
        }
    }
}

impl<T> Allocator<T> for Arena<T> {
    open spec fn inv(&self) -> bool {
        self.wf()
    }

    open spec fn identity(&self) -> usize {
        self.identity()
    }

    open spec fn objects(&self) -> Seq<T> {
        self.contents()
    }

    open spec fn has_room(&self) -> bool {
        &&& self.bump() + vstd::layout::size_of::<T>() <= self.size()
        &&& self.contents().len() < usize::MAX
    }

    /// Writes `object` at the bump offset and advances the offset by the
    /// object's size; a full region stays as it is.
    fn allocate(&mut self, object: T) -> (r: Result<Ptr<T>, AllocError>)
        ensures
            r is Ok ==> final(self).size() == old(self).size(),
            r is Ok ==> final(self).bump() == old(self).bump() + vstd::layout::size_of::<T>(),
            r is Ok ==> old(self).offset_of(r->Ok_0) == old(self).bump(),
    {
        let object_size = core::mem::size_of::<T>();
        if self.slots.len() == usize::MAX {
            return Err(AllocError::OutOfMemory);
        }
        match next_bump(self.size, self.bump, object_size) {
            Ok(next) => {
                let index = self.slots.len();
                assert((index + 1) * object_size == index * object_size + object_size)
                    by (nonlinear_arith);
                self.slots.push(object);
                self.bump = next;
                Ok(Ptr::from_index(self.identity.get(), index))
            },
            Err(e) => Err(e),
        }
    }
}

} // verus!
