//! The fixed pool of frame buffers and the handle that owns one of them.
//!
//! The buffers live in a lock-free memory pool of the `heapless` crate. A
//! buffer is either free, inside the pool, or owned by exactly one
//! [`OwnedFrame`]; the handle is moved, never copied, so two holders cannot
//! share a buffer.

use vstd::prelude::*;
use crate::image::{blank, bytes_of, Color, Image};
use heapless::pool::{Box, Init, Pool, Uninit};

verus! {

/// `heapless::pool::Pool`, the lock-free memory pool; opaque here.
#[verifier::external_type_specification]
#[verifier::external_body]
#[verifier::reject_recursive_types(T)]
pub struct ExPool<T>(Pool<T>);

/// `heapless::pool::Box`, a memory block claimed from a pool; opaque here.
#[verifier::external_type_specification]
#[verifier::external_body]
#[verifier::reject_recursive_types(T)]
#[verifier::reject_recursive_types(STATE)]
pub struct ExBox<T, STATE>(Box<T, STATE>);

/// `heapless::pool::Init`, the marker of a block that has been written.
#[verifier::external_type_specification]
#[verifier::external_body]
pub struct ExInit(Init);

/// `heapless::pool::Uninit`, the marker of a block that has not.
#[verifier::external_type_specification]
#[verifier::external_body]
pub struct ExUninit(Uninit);

/// The number of memory blocks that lie free in a `heapless` pool.
pub uninterp spec fn free_blocks(pool: Pool<Image>) -> nat;

/// The pixels of the frame that an initialised block of a `heapless` pool
/// holds.
pub uninterp spec fn held_pixels(block: Box<Image, Init>) -> Seq<Color>;

/// `heapless::pool::Pool::new`: a pool that manages no memory yet, so that
/// no block lies free in it.
#[verifier::external_body]
fn pool_new() -> (pool: Pool<Image>)
    ensures
        free_blocks(pool) == 0,
{
    Pool::new()
}

/// `heapless::pool::Pool::grow`: carves blocks out of `memory`, adds them to
/// the free blocks and returns how many it added. How many fit depends on
/// where the memory lies, so nothing is claimed of the number itself.
#[verifier::external_body]
fn pool_grow(pool: &mut Pool<Image>, memory: &'static mut [u8]) -> (added: usize)
    ensures
        free_blocks(*final(pool)) == free_blocks(*old(pool)) + added,
{
    pool.grow(memory)
}

/// `heapless::pool::Pool::alloc`: takes one free block out of the pool, or
/// returns `None` when none lies free, which leaves the pool as it was.
#[verifier::external_body]
fn pool_alloc(pool: &mut Pool<Image>) -> (block: Option<Box<Image, Uninit>>)
    ensures
        block is Some <==> free_blocks(*old(pool)) > 0,
        block is Some ==> free_blocks(*final(pool)) == free_blocks(*old(pool)) - 1,
        block is None ==> free_blocks(*final(pool)) == free_blocks(*old(pool)),
{
    pool.alloc()
}

/// `heapless::pool::Pool::free`: puts the block back among the free blocks.
#[verifier::external_body]
fn pool_free(pool: &mut Pool<Image>, block: Box<Image, Init>)
    ensures
        free_blocks(*final(pool)) == free_blocks(*old(pool)) + 1,
{
    pool.free(block)
}

/// `heapless::pool::Box::init`: writes `image` into the block, which then
/// holds it.
#[verifier::external_body]
fn block_init(block: Box<Image, Uninit>, image: Image) -> (filled: Box<Image, Init>)
    ensures
        held_pixels(filled) == image@,
{
    block.init(image)
}

/// `Deref` of `heapless::pool::Box`: the frame that the block holds.
#[verifier::external_body]
fn block_get(block: &Box<Image, Init>) -> (image: &Image)
    ensures
        image@ == held_pixels(*block),
{
    &**block
}

/// `DerefMut` of `heapless::pool::Box`: the frame that the block holds, to
/// be changed in place; the block then holds what was written.
#[verifier::external_body]
fn block_get_mut(block: &mut Box<Image, Init>) -> (image: &mut Image)
    ensures
        image@ == held_pixels(*old(block)),
        held_pixels(*final(block)) == final(image)@,
    no_unwind
{
    &mut **block
}

/// Exclusive ownership of one frame buffer of a pool. The handle cannot be
/// copied: handing it to the mailbox or back to the pool moves it, and the
/// sender is left with nothing to read.
pub struct OwnedFrame {
    block: Box<Image, Init>,
}

impl View for OwnedFrame {
    type V = Seq<Color>;

    /// The 64 pixels of the frame in the buffer.
    closed spec fn view(&self) -> Seq<Color> {
        held_pixels(self.block)
    }
}

impl OwnedFrame {
    /// The frame in the buffer.
    pub fn image(&self) -> (image: &Image)
        ensures
            image@ == self@,
    {
        block_get(&self.block)
    }

    /// Replaces the frame in the buffer.
    pub fn store(&mut self, image: Image)
        ensures
            final(self)@ == image@,
    {
        let held = block_get_mut(&mut self.block);
        *held = image;
    }

    /// Overwrites byte `pos` of the frame in wire order; every other byte
    /// stays as it was.
    pub fn set_byte(&mut self, pos: usize, value: u8)
        requires
            pos < 192,
        ensures
            bytes_of(final(self)@) == bytes_of(old(self)@).update(pos as int, value),
            final(self)@.len() == 64,
        no_unwind
    {
        let held = block_get_mut(&mut self.block);
        held.set_byte(pos, value);
    }
}

/// The fixed pool of frame buffers. Its capacity is settled when it is made
/// and never grows.
pub struct FramePool {
    pool: Pool<Image>,
    capacity: usize,
}

impl FramePool {
    /// How many buffers lie free.
    pub closed spec fn free_count(&self) -> nat {
        free_blocks(self.pool)
    }

    /// How many buffers there are in all, free or owned.
    pub closed spec fn capacity(&self) -> nat {
        self.capacity as nat
    }

    /// A pool of as many buffers as fit into `memory`, all of them free.
    pub fn new(memory: &'static mut [u8]) -> (pool: FramePool)
        ensures
            pool.free_count() == pool.capacity(),
    {
        let mut pool = pool_new();
        let capacity = pool_grow(&mut pool, memory);
        FramePool { pool, capacity }
    }

    /// How many buffers there are in all.
    pub fn slots(&self) -> (n: usize)
        ensures
            n == self.capacity(),
    {
        self.capacity
    }

    /// Claims a free buffer, zero-initialised, or reports exhaustion with
    /// `None` when every buffer is owned; exhaustion changes nothing.
    pub fn allocate(&mut self) -> (frame: Option<OwnedFrame>)
        ensures
            frame is Some <==> old(self).free_count() > 0,
            frame is Some ==> frame->0@ == blank() && final(self).free_count() == old(
                self,
            ).free_count() - 1,
            frame is None ==> final(self).free_count() == old(self).free_count(),
            final(self).capacity() == old(self).capacity(),
    {
        match pool_alloc(&mut self.pool) {
            Some(block) => Some(OwnedFrame { block: block_init(block, Image::default()) }),
            None => None,
        }
    }

    /// Returns a buffer to the pool for reuse. The handle is consumed.
    pub fn free(&mut self, frame: OwnedFrame)
        ensures
            final(self).free_count() == old(self).free_count() + 1,
            final(self).capacity() == old(self).capacity(),
    {
        pool_free(&mut self.pool, frame.block);
    }
}

} // verus!
