//! The alpha-capable software surface that shows off-screen frames on Wayland.
//!
//! A frame is presented by an exchange between [`ArgbSurface::present`] and the
//! program that talks to the compositor: each event it reports is answered by
//! the next action to take.

use vstd::prelude::*;

use crate::blit;
use crate::osr;
use crate::osr::OsrFrame;

verus! {

/// Number of buffers that a surface has at most.
pub const MAX_BUFFERS: usize = 3;

/// Version of `wl_surface` from which damage is given in buffer coordinates.
pub const DAMAGE_BUFFER_SINCE: u32 = 4;

/// A shared-memory buffer of a surface, `backing` being whatever holds its memory.
pub struct ArgbBuffer<P> {
    /// Tells the buffer apart from every other buffer that its surface ever has.
    pub key: u64,
    pub width: i32,
    pub height: i32,
    pub len: usize,
    /// Whether the compositor is done with the buffer.
    pub released: bool,
    pub backing: P,
}

/// What a shared-memory buffer reports.
#[derive(Clone, Copy, Debug, PartialEq, Eq, Structural)]
pub enum BufferEvent {
    Release,
    Other,
}

/// The layout of a pixel in a shared-memory buffer.
#[derive(Clone, Copy, Debug, PartialEq, Eq, Structural)]
pub enum ShmFormat {
    /// Blue, green, red and alpha.
    Argb8888,
    /// Blue, green, red and a byte that is ignored.
    Xrgb8888,
}

/// How a pool and the buffer in it are to be announced to the compositor.
#[derive(Clone, Copy, Debug, PartialEq, Eq, Structural)]
pub struct ShmRequest {
    pub pool_size: i32,
    pub offset: i32,
    pub width: i32,
    pub height: i32,
    pub stride: i32,
    pub format: ShmFormat,
}

/// How far the creation of a buffer has come, with the system's replies.
#[derive(Clone, Copy, Debug, PartialEq, Eq, Structural)]
pub enum AllocationProgress {
    Begin,
    /// The descriptor of the memory file, negative if there is none.
    FileCreated { descriptor: i32 },
    /// Whether the file has the length asked for.
    Resized { done: bool },
    /// Whether the address that the file was mapped at is null, or the one by
    /// which the system tells a failure.
    Mapped { null: bool, failed: bool },
}

/// What is to be asked of the system next to make a buffer.
#[derive(Clone, Copy, Debug, PartialEq, Eq, Structural)]
pub enum AllocationAction {
    /// Create a file in memory.
    CreateFile,
    /// Give the file this length.
    Resize { len: u64 },
    /// Map this many bytes of the file, to be read and written and shared.
    MapShared { len: usize },
    /// Announce the buffer to the compositor; it is made.
    Announce(ShmRequest),
    /// There is no buffer.
    GiveUp,
}

/// The part of a surface to be redrawn.
#[derive(Clone, Copy, Debug, PartialEq, Eq, Structural)]
pub enum Damage {
    /// In the coordinates of the attached buffer.
    Buffer { x: i32, y: i32, width: i32, height: i32 },
    /// In the coordinates of the surface.
    Surface { x: i32, y: i32, width: i32, height: i32 },
}

/// What happened to a surface while a frame is being presented.
pub enum PresentEvent<P> {
    /// There is a frame to show in a window of this size.
    Frame { width: u32, height: u32 },
    /// The compositor's events have been read and dispatched.
    Pumped,
    /// The buffer asked for was made, or could not be.
    Created(Option<P>),
}

/// What is to be done next to present a frame.
#[derive(Clone, Copy, Debug, PartialEq, Eq, Structural)]
pub enum PresentAction {
    /// Read and dispatch the events that are there, without waiting for any, then
    /// report `Pumped`.
    Pump,
    /// Make a buffer, then report `Created`.
    Create { key: u64, width: i32, height: i32, len: usize },
    /// Copy the frame into the buffer at `index` and commit it.
    Show { index: usize, width: i32, height: i32 },
    /// Drop the frame.
    Skip,
}

/// How far the presentation of a frame has come.
#[derive(Clone, Copy, Debug, PartialEq, Eq, Structural)]
pub enum PresentStage {
    Idle,
    Pumping { width: i32, height: i32 },
    Creating { key: u64, width: i32, height: i32, len: usize },
}

/// A surface with its buffers.
pub struct ArgbSurface<P> {
    buffers: Vec<ArgbBuffer<P>>,
    stage: PresentStage,
    /// All keys below this one have been handed out.
    next_key: u64,
}

/// Length in bytes of a buffer: the product of both extents, taken as `usize`,
/// and four bytes a pixel.
pub open spec fn buffer_len_spec(width: i32, height: i32) -> int {
    (width as usize) * (height as usize) * 4
}

/// Length of a buffer, or `None` where it is beyond `usize`.
pub fn buffer_len(width: i32, height: i32) -> (len: Option<usize>)
    ensures
        len is Some <==> buffer_len_spec(width, height) <= usize::MAX,
        len matches Some(n) ==> n == buffer_len_spec(width, height),
{
    match (width as usize).checked_mul(height as usize) {
        Some(pixels) => pixels.checked_mul(4),
        None => None,
    }
}

impl<P> ArgbBuffer<P> {
    /// The buffer has the extent of its bytes.
    pub open spec fn wf(&self) -> bool {
        &&& self.width > 0
        &&& self.height > 0
        &&& self.len == osr::bgra_len(self.width as int, self.height as int)
    }

    /// The buffer has this extent.
    pub open spec fn fits(&self, width: i32, height: i32) -> bool {
        self.width == width && self.height == height
    }

    /// The compositor is done with the buffer and it has this extent.
    pub open spec fn usable(&self, width: i32, height: i32) -> bool {
        self.released && self.fits(width, height)
    }

    /// The buffer is still shown, or may be shown again at this extent.
    pub open spec fn worth_keeping(&self, width: i32, height: i32) -> bool {
        !self.released || self.fits(width, height)
    }

    /// The buffer once handed to the compositor.
    pub open spec fn handed_over(self) -> ArgbBuffer<P> {
        ArgbBuffer { released: false, ..self }
    }

    /// A new buffer, which the compositor has not been handed yet.
    pub fn new(key: u64, width: i32, height: i32, len: usize, backing: P) -> (buffer: Self)
        ensures
            buffer == (ArgbBuffer { key, width, height, len, released: true, backing }),
    {
        ArgbBuffer { key, width, height, len, released: true, backing }
    }

    /// Writes a frame, scaled to the buffer, over the buffer's memory.
    pub fn copy_frame(&self, dst: &mut [u8], frame: &OsrFrame)
        requires
            self.wf(),
            old(dst)@.len() == self.len,
        ensures
            final(dst)@ == blit::scaled_bytes(frame, self.width as int, self.height as int),
    {
        frame.copy_scaled(dst, self.width as usize, self.height as usize);
    }
}

/// How a buffer of `len` bytes is announced: one pool that it fills, rows of four
/// bytes a pixel, and a format that keeps the alpha of off-screen frames.
pub fn shm_request(len: usize, width: i32, height: i32) -> (request: ShmRequest)
    requires
        i32::MIN <= width * 4 <= i32::MAX,
    ensures
        request == (ShmRequest {
            pool_size: len as i32,
            offset: 0,
            width,
            height,
            stride: (width * 4) as i32,
            format: ShmFormat::Argb8888,
        }),
        len <= i32::MAX ==> request.pool_size == len,
{
    ShmRequest {
        pool_size: #[verifier::truncate] (len as i32),
        offset: 0,
        width,
        height,
        stride: width * 4,
        format: ShmFormat::Argb8888,
    }
}

/// The next action to make a buffer of `len` bytes, given the replies so far.
pub open spec fn allocation_action(
    len: usize,
    width: i32,
    height: i32,
    progress: AllocationProgress,
) -> AllocationAction {
    match progress {
        AllocationProgress::Begin => AllocationAction::CreateFile,
        AllocationProgress::FileCreated { descriptor } => if descriptor < 0 {
            AllocationAction::GiveUp
        } else {
            AllocationAction::Resize { len: len as u64 }
        },
        AllocationProgress::Resized { done } => if done {
            AllocationAction::MapShared { len }
        } else {
            AllocationAction::GiveUp
        },
        AllocationProgress::Mapped { null, failed } => if null || failed {
            AllocationAction::GiveUp
        } else {
            AllocationAction::Announce(
                ShmRequest {
                    pool_size: len as i32,
                    offset: 0,
                    width,
                    height,
                    stride: (width * 4) as i32,
                    format: ShmFormat::Argb8888,
                },
            )
        },
    }
}

/// Decides the next step of making a buffer of `len` bytes.
///
/// The rows of the buffer to be announced are counted in `i32`.
pub fn allocate_buffer(
    len: usize,
    width: i32,
    height: i32,
    progress: AllocationProgress,
) -> (action: AllocationAction)
    requires
        allocation_action(len, width, height, progress) is Announce ==> i32::MIN <= width * 4
            <= i32::MAX,
    ensures
        action == allocation_action(len, width, height, progress),
{
    match progress {
        AllocationProgress::Begin => AllocationAction::CreateFile,
        AllocationProgress::FileCreated { descriptor } => if descriptor < 0 {
            AllocationAction::GiveUp
        } else {
            AllocationAction::Resize { len: len as u64 }
        },
        AllocationProgress::Resized { done } => if done {
            AllocationAction::MapShared { len }
        } else {
            AllocationAction::GiveUp
        },
        AllocationProgress::Mapped { null, failed } => if null || failed {
            AllocationAction::GiveUp
        } else {
            AllocationAction::Announce(shm_request(len, width, height))
        },
    }
}

/// What exists of a buffer once its creation has come to an end.
#[derive(Clone, Copy, Debug, PartialEq, Eq, Structural)]
pub struct AllocationOutcome {
    /// Whether the memory of the file is mapped.
    pub mapped: bool,
    /// The pool and the buffer that the compositor knows of.
    pub announced: Option<ShmRequest>,
}

/// What comes of carrying out every action to make a buffer, the system giving
/// these replies.
pub open spec fn allocation_outcome(
    len: usize,
    width: i32,
    height: i32,
    descriptor: i32,
    resized: bool,
    null: bool,
    failed: bool,
) -> AllocationOutcome {
    let nothing = AllocationOutcome { mapped: false, announced: None };
    let created = AllocationProgress::FileCreated { descriptor };
    let sized = AllocationProgress::Resized { done: resized };
    let mapping = AllocationProgress::Mapped { null, failed };
    if !(allocation_action(len, width, height, AllocationProgress::Begin) is CreateFile) {
        nothing
    } else if !(allocation_action(len, width, height, created) is Resize) {
        nothing
    } else if !(allocation_action(len, width, height, sized) is MapShared) {
        nothing
    } else {
        let mapped = !null && !failed;
        match allocation_action(len, width, height, mapping) {
            AllocationAction::Announce(request) => AllocationOutcome {
                mapped,
                announced: Some(request),
            },
            _ => AllocationOutcome { mapped, announced: None },
        }
    }
}

/// What to redraw once a `width` by `height` buffer is attached to a surface of
/// the given version; nothing where there is no surface.
pub fn damage(surface_version: Option<u32>, width: i32, height: i32) -> (r: Option<Damage>)
    ensures
        r == match surface_version {
            None => None::<Damage>,
            Some(version) => Some(
                if version >= 4 {
                    Damage::Buffer { x: 0, y: 0, width, height }
                } else {
                    Damage::Surface { x: 0, y: 0, width: i32::MAX, height: i32::MAX }
                },
            ),
        },
{
    match surface_version {
        None => None,
        Some(version) => if version >= DAMAGE_BUFFER_SINCE {
            Some(Damage::Buffer { x: 0, y: 0, width, height })
        } else {
            Some(Damage::Surface { x: 0, y: 0, width: i32::MAX, height: i32::MAX })
        },
    }
}

/// A window size as the protocol takes it, if the protocol takes it.
pub open spec fn presentable(width: u32, height: u32) -> bool {
    0 < width <= i32::MAX && 0 < height <= i32::MAX
}

/// The buffers that stay when a frame of this extent is presented.
pub open spec fn kept<P>(buffers: Seq<ArgbBuffer<P>>, width: i32, height: i32) -> Seq<
    ArgbBuffer<P>,
> {
    buffers.filter(|b: ArgbBuffer<P>| b.worth_keeping(width, height))
}

/// `index` is the first buffer that can be drawn into.
pub open spec fn is_first_usable<P>(
    buffers: Seq<ArgbBuffer<P>>,
    width: i32,
    height: i32,
    index: int,
) -> bool {
    &&& 0 <= index < buffers.len()
    &&& buffers[index].usable(width, height)
    &&& forall|i: int| 0 <= i < index ==> !(#[trigger] buffers[i]).usable(width, height)
}

/// No buffer can be drawn into.
pub open spec fn none_usable<P>(buffers: Seq<ArgbBuffer<P>>, width: i32, height: i32) -> bool {
    forall|i: int| 0 <= i < buffers.len() ==> !(#[trigger] buffers[i]).usable(width, height)
}

/// No buffer has this key.
pub open spec fn key_is_free<P>(buffers: Seq<ArgbBuffer<P>>, key: u64) -> bool {
    forall|i: int| 0 <= i < buffers.len() ==> (#[trigger] buffers[i]).key != key
}

/// Where the buffers that stay come from: each is one of the buffers there were,
/// in the same order.
proof fn lemma_kept<P>(buffers: Seq<ArgbBuffer<P>>, width: i32, height: i32)
    ensures
        kept(buffers, width, height).len() <= buffers.len(),
        exists|from: spec_fn(int) -> int| #[trigger] comes_from(
            kept(buffers, width, height),
            buffers,
            from,
        ),
        forall|i: int|
            0 <= i < kept(buffers, width, height).len() ==> (#[trigger] kept(
                buffers,
                width,
                height,
            )[i]).worth_keeping(width, height),
    decreases buffers.len(),
{
    reveal(Seq::filter);
    let rest = kept(buffers, width, height);
    if buffers.len() == 0 {
        assert(comes_from(rest, buffers, |i: int| i));
    } else {
        let earlier = buffers.drop_last();
        lemma_kept(earlier, width, height);
        let from = choose|from: spec_fn(int) -> int| #[trigger] comes_from(
            kept(earlier, width, height),
            earlier,
            from,
        );
        let count = kept(earlier, width, height).len() as int;
        let extended = |i: int|
            if i == count {
                buffers.len() - 1
            } else {
                from(i)
            };
        assert(comes_from(rest, buffers, extended));
    }
}

/// `part` is made of elements of `all`, picked in order by `from`.
spec fn comes_from<A>(part: Seq<A>, all: Seq<A>, from: spec_fn(int) -> int) -> bool {
    &&& forall|i: int|
        0 <= i < part.len() ==> 0 <= #[trigger] from(i) < all.len() && part[i] == all[from(i)]
    &&& forall|i: int, j: int| 0 <= i < j < part.len() ==> #[trigger] from(i) < #[trigger] from(j)
}

impl<P> ArgbSurface<P> {
    /// The buffers that there are.
    pub closed spec fn buffers(&self) -> Seq<ArgbBuffer<P>> {
        self.buffers@
    }

    /// How far the presentation of a frame has come.
    pub closed spec fn stage(&self) -> PresentStage {
        self.stage
    }

    /// The key that the next buffer gets; every key below it has been handed out.
    pub closed spec fn next_key(&self) -> u64 {
        self.next_key
    }

    /// Few buffers, each well formed and told apart by its key.
    pub open spec fn wf(&self) -> bool {
        &&& self.buffers().len() <= MAX_BUFFERS
        &&& forall|i: int|
            0 <= i < self.buffers().len() ==> (#[trigger] self.buffers()[i]).wf()
                && self.buffers()[i].key < self.next_key()
        &&& forall|i: int, j: int|
            0 <= i < j < self.buffers().len() ==> (#[trigger] self.buffers()[i]).key != (
            #[trigger] self.buffers()[j]).key
        &&& self.stage() matches PresentStage::Pumping { width, height } ==> width > 0 && height > 0
        &&& self.stage() matches PresentStage::Creating { key, width, height, len } ==> {
            &&& self.buffers().len() < MAX_BUFFERS
            &&& key < self.next_key()
            &&& key_is_free(self.buffers(), key)
            &&& width > 0
            &&& height > 0
            &&& len == osr::bgra_len(width as int, height as int)
        }
    }

    /// What `present` answers to an event and what becomes of the surface.
    pub open spec fn presents(
        self,
        event: PresentEvent<P>,
        next: ArgbSurface<P>,
        action: PresentAction,
    ) -> bool {
        &&& next.next_key() == self.next_key() + if action is Create {
            1int
        } else {
            0
        }
        &&& match (event, self.stage()) {
            (PresentEvent::Frame { width, height }, _) => {
                &&& next.buffers() == self.buffers()
                &&& presentable(width, height) ==> action == PresentAction::Pump && next.stage() == (
                PresentStage::Pumping { width: width as i32, height: height as i32 })
                &&& !presentable(width, height) ==> action == PresentAction::Skip && next.stage()
                    == PresentStage::Idle
            },
            (PresentEvent::Pumped, PresentStage::Pumping { width, height }) => {
                let rest = kept(self.buffers(), width, height);
                match action {
                    PresentAction::Show { index, width: w, height: h } => {
                        &&& is_first_usable(rest, width, height, index as int)
                        &&& w == width && h == height
                        &&& next.buffers() == rest.update(
                            index as int,
                            rest[index as int].handed_over(),
                        )
                        &&& next.stage() == PresentStage::Idle
                    },
                    PresentAction::Create { key, width: w, height: h, len } => {
                        &&& none_usable(rest, width, height)
                        &&& rest.len() < MAX_BUFFERS
                        &&& key == self.next_key()
                        &&& w == width && h == height
                        &&& len == osr::bgra_len(width as int, height as int)
                        &&& next.buffers() == rest
                        &&& next.stage() == (PresentStage::Creating { key, width, height, len })
                    },
                    PresentAction::Skip => {
                        &&& none_usable(rest, width, height)
                        &&& rest.len() >= MAX_BUFFERS || osr::bgra_len(width as int, height as int)
                            > usize::MAX
                        &&& next.buffers() == rest
                        &&& next.stage() == PresentStage::Idle
                    },
                    PresentAction::Pump => false,
                }
            },
            (
                PresentEvent::Created(Some(backing)),
                PresentStage::Creating { key, width, height, len },
            ) => {
                &&& action == (PresentAction::Show {
                    index: self.buffers().len() as usize,
                    width,
                    height,
                })
                &&& next.buffers() == self.buffers().push(
                    (ArgbBuffer { key, width, height, len, released: true, backing }).handed_over(),
                )
                &&& next.stage() == PresentStage::Idle
            },
            _ => {
                &&& action == PresentAction::Skip
                &&& next.buffers() == self.buffers()
                &&& next.stage() == PresentStage::Idle
            },
        }
    }

    /// A surface without buffers.
    pub fn new() -> (surface: Self)
        ensures
            surface.wf(),
            surface.buffers() == Seq::<ArgbBuffer<P>>::empty(),
            surface.stage() == PresentStage::Idle,
            surface.next_key() == 0,
    {
        ArgbSurface { buffers: Vec::new(), stage: PresentStage::Idle, next_key: 0 }
    }

    /// The buffers that there are.
    pub fn as_slice(&self) -> (r: &[ArgbBuffer<P>])
        ensures
            r@ == self.buffers(),
    {
        self.buffers.as_slice()
    }

    /// Whether there is a key for one more buffer; there are as many as `u64` can
    /// count.
    pub fn has_key_left(&self) -> (r: bool)
        ensures
            r == (self.next_key() < u64::MAX),
    {
        self.next_key < u64::MAX
    }

    /// The surface once a buffer has reported an event: a release frees the buffer
    /// with the given key.
    pub open spec fn hears(self, key: u64, event: BufferEvent, next: ArgbSurface<P>) -> bool {
        &&& next.stage() == self.stage()
        &&& next.next_key() == self.next_key()
        &&& next.buffers() == self.buffers().map_values(
            |b: ArgbBuffer<P>|
                if event == BufferEvent::Release && b.key == key {
                    ArgbBuffer { released: true, ..b }
                } else {
                    b
                },
        )
    }

    /// The buffer that the key was handed out for is no more.
    pub open spec fn gone(self, key: u64) -> bool {
        &&& key < self.next_key()
        &&& key_is_free(self.buffers(), key)
        &&& self.stage() matches PresentStage::Creating { key: current, .. } ==> current != key
    }

    /// Handles an event of the buffer with the given key; one of a buffer that is
    /// gone changes nothing.
    pub fn event(&mut self, key: u64, event: BufferEvent)
        requires
            old(self).wf(),
        ensures
            final(self).wf(),
            old(self).hears(key, event, *final(self)),
    {
        let ghost change = |b: ArgbBuffer<P>|
            if event == BufferEvent::Release && b.key == key {
                ArgbBuffer { released: true, ..b }
            } else {
                b
            };
        let ghost start = self.buffers@;
        if event == BufferEvent::Release {
            let mut i: usize = 0;
            while i < self.buffers.len()
                invariant
                    i <= self.buffers@.len(),
                    self.buffers@.len() == start.len(),
                    self.stage == old(self).stage,
                    self.next_key == old(self).next_key,
                    event == BufferEvent::Release,
                    forall|b: ArgbBuffer<P>| #[trigger]
                        change(b) == if event == BufferEvent::Release && b.key == key {
                            ArgbBuffer { released: true, ..b }
                        } else {
                            b
                        },
                    forall|k: int| 0 <= k < i ==> #[trigger] self.buffers@[k] == change(start[k]),
                    forall|k: int| i <= k < start.len() ==> #[trigger] self.buffers@[k] == start[k],
                decreases self.buffers@.len() - i,
            {
                if self.buffers[i].key == key {
                    self.buffers[i].released = true;
                }
                i += 1;
            }
        }
        assert(self.buffers@ =~= start.map_values(change));
    }

    /// Gives up the buffers that the compositor is done with and that have
    /// another extent than the given one.
    fn retain(&mut self, width: i32, height: i32)
        ensures
            final(self).buffers@ == kept(old(self).buffers@, width, height),
            final(self).stage == old(self).stage,
            final(self).next_key == old(self).next_key,
    {
        let ghost start = self.buffers@;
        let ghost keep = |b: ArgbBuffer<P>| b.worth_keeping(width, height);
        let ghost mut seen: int = 0;
        let mut i: usize = 0;
        proof {
            reveal(Seq::filter);
            assert(start.take(0) =~= Seq::<ArgbBuffer<P>>::empty());
            assert(start.take(0).filter(keep) + start.skip(0) =~= start);
        }
        while i < self.buffers.len()
            invariant
                0 <= seen <= start.len(),
                self.stage == old(self).stage,
                self.next_key == old(self).next_key,
                i == start.take(seen).filter(keep).len(),
                self.buffers@ == start.take(seen).filter(keep) + start.skip(seen),
                forall|b: ArgbBuffer<P>| #[trigger] keep(b) == b.worth_keeping(width, height),
            decreases start.len() - seen,
        {
            let ghost before = start.take(seen).filter(keep);
            proof {
                assert(start.take(seen + 1).drop_last() =~= start.take(seen));
                assert(start.take(seen + 1).last() == start[seen]);
                reveal(Seq::filter);
                assert(self.buffers@[i as int] == start[seen]);
            }
            let keep_this = !self.buffers[i].released || (self.buffers[i].width == width
                && self.buffers[i].height == height);
            if keep_this {
                assert(self.buffers@ =~= before.push(start[seen]) + start.skip(seen + 1));
                i += 1;
            } else {
                let _ = self.buffers.remove(i);
                assert(self.buffers@ =~= before + start.skip(seen + 1));
            }
            proof {
                seen = seen + 1;
            }
        }
        assert(start.take(seen) =~= start);
        assert(self.buffers@ =~= kept(start, width, height));
    }

    /// The first buffer that can be drawn into.
    fn position(&self, width: i32, height: i32) -> (r: Option<usize>)
        ensures
            match r {
                Some(index) => is_first_usable(self.buffers@, width, height, index as int),
                None => none_usable(self.buffers@, width, height),
            },
    {
        let mut i: usize = 0;
        while i < self.buffers.len()
            invariant
                i <= self.buffers@.len(),
                forall|k: int|
                    0 <= k < i ==> !(#[trigger] self.buffers@[k]).usable(width, height),
            decreases self.buffers@.len() - i,
        {
            if self.buffers[i].released && self.buffers[i].width == width
                && self.buffers[i].height == height {
                return Some(i);
            }
            i += 1;
        }
        None
    }

    /// Takes the presentation of a frame one step further.
    ///
    /// The compositor is never waited for: a frame for which no buffer is free and
    /// none may be made is dropped, the next one will do. A buffer is handed out
    /// to be drawn into only once the compositor is done with it. Every buffer has a
    /// key of its own, and keys are counted in `u64`.
    pub fn present(&mut self, event: PresentEvent<P>) -> (action: PresentAction)
        requires
            old(self).wf(),
            event is Pumped && old(self).stage() is Pumping ==> old(self).next_key() < u64::MAX,
        ensures
            final(self).wf(),
            old(self).presents(event, *final(self), action),
    {
        let stage = self.stage;
        self.stage = PresentStage::Idle;
        match event {
            PresentEvent::Frame { width, height } => {
                if width == 0 || width > 0x7fff_ffff || height == 0 || height > 0x7fff_ffff {
                    return PresentAction::Skip;
                }
                self.stage = PresentStage::Pumping { width: width as i32, height: height as i32 };
                PresentAction::Pump
            },
            PresentEvent::Pumped => match stage {
                PresentStage::Pumping { width, height } => self.choose_buffer(width, height),
                _ => PresentAction::Skip,
            },
            PresentEvent::Created(created) => match (created, stage) {
                (Some(backing), PresentStage::Creating { key, width, height, len }) => {
                    let index = self.buffers.len();
                    let mut buffer = ArgbBuffer::new(key, width, height, len, backing);
                    buffer.released = false;
                    self.buffers.push(buffer);
                    PresentAction::Show { index, width, height }
                },
                _ => PresentAction::Skip,
            },
        }
    }

    /// Finds a buffer for a frame, or says how to come by one.
    fn choose_buffer(&mut self, width: i32, height: i32) -> (action: PresentAction)
        requires
            old(self).wf(),
            old(self).stage == PresentStage::Idle,
            old(self).next_key < u64::MAX,
            width > 0,
            height > 0,
        ensures
            final(self).wf(),
            (ArgbSurface {
                buffers: old(self).buffers,
                stage: PresentStage::Pumping { width, height },
                next_key: old(self).next_key,
            }).presents(PresentEvent::Pumped, *final(self), action),
    {
        self.retain(width, height);
        proof {
            let all = old(self).buffers@;
            lemma_kept(all, width, height);
            let from = choose|from: spec_fn(int) -> int| #[trigger] comes_from(
                self.buffers@,
                all,
                from,
            );
            assert forall|i: int| 0 <= i < self.buffers@.len() implies (
            #[trigger] self.buffers@[i]).wf() && self.buffers@[i].key < self.next_key by {
                assert(self.buffers@[i] == all[from(i)]);
            }
            assert forall|i: int, j: int| 0 <= i < j < self.buffers@.len() implies (
            #[trigger] self.buffers@[i]).key != (#[trigger] self.buffers@[j]).key by {
                assert(from(i) < from(j));
                assert(all[from(i)].key != all[from(j)].key);
            }
        }
        let ghost rest = self.buffers@;
        match self.position(width, height) {
            Some(index) => {
                self.buffers[index].released = false;
                assert(self.buffers@ =~= rest.update(
                    index as int,
                    rest[index as int].handed_over(),
                ));
                PresentAction::Show { index, width, height }
            },
            None => {
                if self.buffers.len() >= MAX_BUFFERS {
                    return PresentAction::Skip;
                }
                match buffer_len(width, height) {
                    Some(len) => {
                        let key = self.next_key;
                        self.next_key = key + 1;
                        self.stage = PresentStage::Creating { key, width, height, len };
                        PresentAction::Create { key, width, height, len }
                    },
                    None => PresentAction::Skip,
                }
            },
        }
    }

    /// Gives up every buffer.
    pub fn clear(&mut self)
        ensures
            final(self).wf(),
            final(self).buffers() == Seq::<ArgbBuffer<P>>::empty(),
            final(self).stage() == PresentStage::Idle,
            final(self).next_key() == old(self).next_key(),
    {
        self.buffers.clear();
        self.stage = PresentStage::Idle;
    }
}

/// Every buffer worth keeping is among those that stay.
proof fn lemma_kept_contains<P>(
    buffers: Seq<ArgbBuffer<P>>,
    width: i32,
    height: i32,
    i: int,
)
    requires
        0 <= i < buffers.len(),
        buffers[i].worth_keeping(width, height),
    ensures
        kept(buffers, width, height).contains(buffers[i]),
    decreases buffers.len(),
{
    reveal(Seq::filter);
    let rest = kept(buffers, width, height);
    let earlier = buffers.drop_last();
    if i == buffers.len() - 1 {
        assert(rest[rest.len() - 1] == buffers[i]);
    } else {
        lemma_kept_contains(earlier, width, height, i);
        assert(earlier[i] == buffers[i]);
        let j = choose|j: int|
            0 <= j < kept(earlier, width, height).len() && kept(earlier, width, height)[j]
                == earlier[i];
        assert(rest[j] == buffers[i]);
    }
}

/// A buffer is announced exactly if there is a file, the file has the length
/// asked for and its memory is mapped; it is then announced as a buffer of just
/// these bytes, with alpha. Otherwise nothing stays mapped and the compositor
/// hears of no pool and no buffer.
pub proof fn buffers_are_made_whole_or_not_at_all(
    len: usize,
    width: i32,
    height: i32,
    descriptor: i32,
    resized: bool,
    null: bool,
    failed: bool,
)
    requires
        i32::MIN <= width * 4 <= i32::MAX,
    ensures
        ({
            let outcome = allocation_outcome(
                len,
                width,
                height,
                descriptor,
                resized,
                null,
                failed,
            );
            &&& outcome.announced is Some <==> descriptor >= 0 && resized && !null && !failed
            &&& outcome.mapped <==> outcome.announced is Some
            &&& outcome.announced matches Some(request) ==> {
                &&& len <= i32::MAX ==> request.pool_size == len
                &&& request.offset == 0
                &&& request.width == width
                &&& request.height == height
                &&& request.stride == width * 4
                &&& request.format == ShmFormat::Argb8888
            }
        }),
{
}

/// No key is handed out twice: however many buffers come and go between them, a
/// later buffer has another key than an earlier one. What is left to hand out only
/// ever gets less.
pub proof fn keys_are_handed_out_once<P>(
    first: ArgbSurface<P>,
    first_event: PresentEvent<P>,
    second: ArgbSurface<P>,
    first_action: PresentAction,
    later: ArgbSurface<P>,
    later_event: PresentEvent<P>,
    last: ArgbSurface<P>,
    later_action: PresentAction,
)
    requires
        first.presents(first_event, second, first_action),
        second.next_key() <= later.next_key(),
        later.presents(later_event, last, later_action),
    ensures
        first.next_key() <= second.next_key(),
        first_action is Create && later_action is Create ==> first_action->Create_key
            < later_action->Create_key,
{
}

/// A buffer that is gone stays gone: its key comes back neither with a buffer nor
/// with one that is being made.
pub proof fn gone_buffers_stay_gone<P>(
    before: ArgbSurface<P>,
    event: PresentEvent<P>,
    after: ArgbSurface<P>,
    action: PresentAction,
    key: u64,
)
    requires
        before.presents(event, after, action),
        before.gone(key),
    ensures
        after.gone(key),
{
    if event is Pumped && before.stage() is Pumping {
        let width = before.stage()->Pumping_width;
        let height = before.stage()->Pumping_height;
        let rest = kept(before.buffers(), width, height);
        lemma_kept(before.buffers(), width, height);
        let from = choose|from: spec_fn(int) -> int| #[trigger] comes_from(
            rest,
            before.buffers(),
            from,
        );
        assert forall|i: int| 0 <= i < after.buffers().len() implies (
        #[trigger] after.buffers()[i]).key != key by {
            assert(after.buffers()[i].key == rest[i].key);
            assert(rest[i] == before.buffers()[from(i)]);
        }
    }
}

/// A late event of a buffer that is gone frees no other buffer, and touches nothing
/// else either.
pub proof fn late_events_change_nothing<P>(
    before: ArgbSurface<P>,
    key: u64,
    event: BufferEvent,
    after: ArgbSurface<P>,
)
    requires
        before.gone(key),
        before.hears(key, event, after),
    ensures
        after.buffers() == before.buffers(),
        after.stage() == before.stage(),
        after.next_key() == before.next_key(),
{
    assert(after.buffers() =~= before.buffers());
}

/// A buffer that the compositor still shows is neither given up nor touched,
/// whatever is presented.
pub proof fn busy_buffers_stay<P>(
    before: ArgbSurface<P>,
    event: PresentEvent<P>,
    after: ArgbSurface<P>,
    action: PresentAction,
    i: int,
)
    requires
        before.presents(event, after, action),
        0 <= i < before.buffers().len(),
        !before.buffers()[i].released,
    ensures
        after.buffers().contains(before.buffers()[i]),
{
    let busy = before.buffers()[i];
    if event is Pumped && before.stage() is Pumping {
        let width = before.stage()->Pumping_width;
        let height = before.stage()->Pumping_height;
        let rest = kept(before.buffers(), width, height);
        lemma_kept_contains(before.buffers(), width, height, i);
        let j = choose|j: int| 0 <= j < rest.len() && rest[j] == busy;
        assert(after.buffers()[j] == busy);
    } else {
        assert(after.buffers()[i] == busy);
    }
}

/// A frame is only ever drawn into a buffer of its own extent that the compositor
/// does not show: one that it has released, or a new one. From then on the buffer
/// counts as shown.
pub proof fn only_free_buffers_are_drawn<P>(
    before: ArgbSurface<P>,
    event: PresentEvent<P>,
    after: ArgbSurface<P>,
    action: PresentAction,
)
    requires
        before.wf(),
        before.presents(event, after, action),
        action is Show,
    ensures
        0 <= action->Show_index < after.buffers().len(),
        after.buffers()[action->Show_index as int].width == action->Show_width,
        after.buffers()[action->Show_index as int].height == action->Show_height,
        !after.buffers()[action->Show_index as int].released,
        forall|i: int|
            0 <= i < before.buffers().len() && (#[trigger] before.buffers()[i]).key
                == after.buffers()[action->Show_index as int].key ==> before.buffers()[i].released,
{
    let index = action->Show_index as int;
    if event is Pumped {
        let width = before.stage()->Pumping_width;
        let height = before.stage()->Pumping_height;
        let rest = kept(before.buffers(), width, height);
        lemma_kept(before.buffers(), width, height);
        let from = choose|from: spec_fn(int) -> int| #[trigger] comes_from(
            rest,
            before.buffers(),
            from,
        );
        assert(rest[index] == before.buffers()[from(index)]);
        assert forall|i: int|
            0 <= i < before.buffers().len() && (#[trigger] before.buffers()[i]).key
                == after.buffers()[index].key implies before.buffers()[i].released by {
            assert(before.buffers()[i].key == before.buffers()[from(index)].key);
            assert(i == from(index));
        }
    }
}

/// Once a buffer of the frame's extent has been released, the frame is shown and
/// no buffer is made for it.
pub proof fn released_buffer_is_reused<P>(
    before: ArgbSurface<P>,
    after: ArgbSurface<P>,
    action: PresentAction,
    i: int,
)
    requires
        before.stage() is Pumping,
        before.presents(PresentEvent::Pumped, after, action),
        0 <= i < before.buffers().len(),
        before.buffers()[i].released,
        before.buffers()[i].width == before.stage()->Pumping_width,
        before.buffers()[i].height == before.stage()->Pumping_height,
    ensures
        action is Show,
{
    let width = before.stage()->Pumping_width;
    let height = before.stage()->Pumping_height;
    lemma_kept_contains(before.buffers(), width, height, i);
    let rest = kept(before.buffers(), width, height);
    let j = choose|j: int| 0 <= j < rest.len() && rest[j] == before.buffers()[i];
    assert(rest[j].usable(width, height));
}

/// A frame whose bytes can be counted is dropped only while the compositor holds
/// every one of the buffers that a surface may have.
pub proof fn frame_dropped_only_when_all_busy<P>(
    before: ArgbSurface<P>,
    after: ArgbSurface<P>,
    action: PresentAction,
)
    requires
        before.wf(),
        after.wf(),
        before.stage() is Pumping,
        before.presents(PresentEvent::Pumped, after, action),
        action is Skip,
        osr::bgra_len(
            before.stage()->Pumping_width as int,
            before.stage()->Pumping_height as int,
        ) <= usize::MAX,
    ensures
        after.buffers().len() == MAX_BUFFERS,
        forall|i: int| 0 <= i < after.buffers().len() ==> !(#[trigger] after.buffers()[i]).released,
{
    lemma_kept(
        before.buffers(),
        before.stage()->Pumping_width,
        before.stage()->Pumping_height,
    );
}

/// Buffers of a former extent do not pile up: once a frame has been presented,
/// each buffer that the compositor is done with has the frame's extent.
pub proof fn stale_buffers_are_given_up<P>(
    before: ArgbSurface<P>,
    after: ArgbSurface<P>,
    action: PresentAction,
    i: int,
)
    requires
        before.stage() is Pumping,
        before.presents(PresentEvent::Pumped, after, action),
        0 <= i < after.buffers().len(),
        after.buffers()[i].released,
    ensures
        after.buffers()[i].width == before.stage()->Pumping_width,
        after.buffers()[i].height == before.stage()->Pumping_height,
{
    lemma_kept(
        before.buffers(),
        before.stage()->Pumping_width,
        before.stage()->Pumping_height,
    );
}

/// A frame goes to the first free buffer of its extent: one that the compositor has
/// released and that is as wide and as high as the window, and before which there is
/// no other such. It is handed over and otherwise stays as it is.
pub proof fn first_free_buffer_of_the_extent_is_shown<P>(
    before: ArgbSurface<P>,
    after: ArgbSurface<P>,
    action: PresentAction,
    width: i32,
    height: i32,
    i: int,
)
    requires
        before.wf(),
        before.stage() == (PresentStage::Pumping { width, height }),
        before.presents(PresentEvent::Pumped, after, action),
        0 <= i < before.buffers().len(),
        before.buffers()[i].released,
        before.buffers()[i].width == width,
        before.buffers()[i].height == height,
        forall|k: int|
            0 <= k < i ==> !((#[trigger] before.buffers()[k]).released && before.buffers()[k].width
                == width && before.buffers()[k].height == height),
    ensures
        action is Show,
        action->Show_width == width,
        action->Show_height == height,
        0 <= action->Show_index < after.buffers().len(),
        ({
            let shown = after.buffers()[action->Show_index as int];
            let free = before.buffers()[i];
            &&& !shown.released
            &&& shown.key == free.key
            &&& shown.width == width
            &&& shown.height == height
            &&& shown.len == free.len
            &&& shown.backing == free.backing
        }),
        after.stage() is Idle,
        after.next_key() == before.next_key(),
{
    let all = before.buffers();
    let rest = kept(all, width, height);
    released_buffer_is_reused(before, after, action, i);
    lemma_kept(all, width, height);
    lemma_kept_contains(all, width, height, i);
    let from = choose|from: spec_fn(int) -> int| #[trigger] comes_from(rest, all, from);
    let j = choose|j: int| 0 <= j < rest.len() && rest[j] == all[i];
    assert(rest[j] == all[from(j)]);
    assert(all[from(j)].key == all[i].key);
    assert(from(j) == i);
    let index = action->Show_index as int;
    assert(rest[index] == all[from(index)]);
    assert(rest[j].usable(width, height));
    if j < index {
        assert(!rest[j].usable(width, height));
    }
    if index < j {
        assert(from(index) < from(j));
        assert(all[from(index)].released);
    }
    assert(after.buffers()[index] == rest[index].handed_over());
}

/// Where no buffer is free that is as wide and as high as the window, one is asked
/// for exactly if the surface is left with fewer than three and the bytes can be
/// counted: one of the window's extent, with four bytes a pixel and the next key.
/// Otherwise the frame is dropped.
pub proof fn buffer_is_asked_for_if_none_is_free<P>(
    before: ArgbSurface<P>,
    after: ArgbSurface<P>,
    action: PresentAction,
    width: i32,
    height: i32,
)
    requires
        before.stage() == (PresentStage::Pumping { width, height }),
        before.presents(PresentEvent::Pumped, after, action),
        forall|k: int|
            0 <= k < before.buffers().len() ==> !((#[trigger] before.buffers()[k]).released
                && before.buffers()[k].width == width && before.buffers()[k].height == height),
    ensures
        action is Create <==> after.buffers().len() < 3 && width * height * 4 <= usize::MAX,
        action is Skip <==> !(action is Create),
        action is Create ==> {
            &&& action->Create_key == before.next_key()
            &&& action->Create_width == width
            &&& action->Create_height == height
            &&& action->Create_len == width * height * 4
            &&& after.next_key() == before.next_key() + 1
            &&& after.stage() == (PresentStage::Creating {
                key: action->Create_key,
                width,
                height,
                len: action->Create_len,
            })
        },
        action is Skip ==> after.stage() is Idle && after.next_key() == before.next_key(),
{
    let all = before.buffers();
    let rest = kept(all, width, height);
    lemma_kept(all, width, height);
    let from = choose|from: spec_fn(int) -> int| #[trigger] comes_from(rest, all, from);
    if action is Show {
        let index = action->Show_index as int;
        assert(rest[index] == all[from(index)]);
        assert(rest[index].usable(width, height));
        assert(all[from(index)].released);
    }
}

/// A buffer that stays when a frame is presented was there before, is still shown by
/// the compositor or as wide and as high as the window, and is as it was, but for
/// being handed over if it is the one that is shown.
pub proof fn buffers_that_stay_are_as_they_were<P>(
    before: ArgbSurface<P>,
    after: ArgbSurface<P>,
    action: PresentAction,
    width: i32,
    height: i32,
    i: int,
) -> (k: int)
    requires
        before.stage() == (PresentStage::Pumping { width, height }),
        before.presents(PresentEvent::Pumped, after, action),
        0 <= i < after.buffers().len(),
    ensures
        0 <= k < before.buffers().len(),
        ({
            let was = before.buffers()[k];
            let stays = after.buffers()[i];
            &&& !was.released || (was.width == width && was.height == height)
            &&& stays.key == was.key
            &&& stays.width == was.width
            &&& stays.height == was.height
            &&& stays.len == was.len
            &&& stays.backing == was.backing
            &&& stays.released == (was.released && !(action is Show && action->Show_index == i))
        }),
{
    let all = before.buffers();
    let rest = kept(all, width, height);
    lemma_kept(all, width, height);
    let from = choose|from: spec_fn(int) -> int| #[trigger] comes_from(rest, all, from);
    assert(rest[i] == all[from(i)]);
    assert(rest[i].worth_keeping(width, height));
    from(i)
}

/// No buffer is given up that the compositor still shows or that is as wide and as
/// high as the window.
pub proof fn buffers_in_use_or_of_the_extent_stay<P>(
    before: ArgbSurface<P>,
    after: ArgbSurface<P>,
    action: PresentAction,
    width: i32,
    height: i32,
    k: int,
) -> (i: int)
    requires
        before.stage() == (PresentStage::Pumping { width, height }),
        before.presents(PresentEvent::Pumped, after, action),
        0 <= k < before.buffers().len(),
        !before.buffers()[k].released || (before.buffers()[k].width == width
            && before.buffers()[k].height == height),
    ensures
        0 <= i < after.buffers().len(),
        after.buffers()[i].key == before.buffers()[k].key,
{
    let all = before.buffers();
    let rest = kept(all, width, height);
    lemma_kept_contains(all, width, height, k);
    choose|i: int| 0 <= i < rest.len() && rest[i] == all[k]
}

/// The buffers that stay keep their order.
pub proof fn buffers_keep_their_order<P>(
    before: ArgbSurface<P>,
    after: ArgbSurface<P>,
    action: PresentAction,
    i: int,
    j: int,
    k: int,
    l: int,
)
    requires
        before.wf(),
        before.stage() is Pumping,
        before.presents(PresentEvent::Pumped, after, action),
        0 <= i < j < after.buffers().len(),
        0 <= k < before.buffers().len(),
        0 <= l < before.buffers().len(),
        after.buffers()[i].key == before.buffers()[k].key,
        after.buffers()[j].key == before.buffers()[l].key,
    ensures
        k < l,
{
    let all = before.buffers();
    let width = before.stage()->Pumping_width;
    let height = before.stage()->Pumping_height;
    let rest = kept(all, width, height);
    lemma_kept(all, width, height);
    let from = choose|from: spec_fn(int) -> int| #[trigger] comes_from(rest, all, from);
    assert(rest[i] == all[from(i)] && rest[j] == all[from(j)]);
    assert(from(i) < from(j));
    assert(all[from(i)].key == all[k].key && all[from(j)].key == all[l].key);
    assert(from(i) == k && from(j) == l);
}

/// A frame is taken up exactly if the window is at least one pixel and less than two
/// to the 31st either way; the buffers wait until events have been read.
pub proof fn frames_of_sizes_that_the_protocol_takes_are_taken_up<P>(
    before: ArgbSurface<P>,
    width: u32,
    height: u32,
    after: ArgbSurface<P>,
    action: PresentAction,
)
    requires
        before.presents(PresentEvent::Frame { width, height }, after, action),
    ensures
        after.buffers() == before.buffers(),
        after.next_key() == before.next_key(),
        action is Pump <==> 1 <= width <= 0x7fff_ffff && 1 <= height <= 0x7fff_ffff,
        action is Skip <==> !(action is Pump),
        action is Pump ==> after.stage() is Pumping && after.stage()->Pumping_width == width
            && after.stage()->Pumping_height == height,
        action is Skip ==> after.stage() is Idle,
{
}

/// A buffer that was asked for and has been made joins the others and is shown at
/// once; until the compositor releases it, it counts as shown. If it could not be
/// made, the frame is dropped and the buffers stay as they are.
pub proof fn new_buffer_is_shown_at_once<P>(
    before: ArgbSurface<P>,
    created: Option<P>,
    after: ArgbSurface<P>,
    action: PresentAction,
)
    requires
        before.wf(),
        before.stage() is Creating,
        before.presents(PresentEvent::Created(created), after, action),
    ensures
        after.stage() is Idle,
        after.next_key() == before.next_key(),
        created is None ==> action is Skip && after.buffers() == before.buffers(),
        created is Some ==> {
            let count = before.buffers().len() as int;
            let made = after.buffers()[count];
            &&& action is Show
            &&& action->Show_index == count
            &&& action->Show_width == before.stage()->Creating_width
            &&& action->Show_height == before.stage()->Creating_height
            &&& after.buffers().len() == count + 1
            &&& forall|i: int|
                0 <= i < count ==> #[trigger] after.buffers()[i] == before.buffers()[i]
            &&& made.key == before.stage()->Creating_key
            &&& made.width == before.stage()->Creating_width
            &&& made.height == before.stage()->Creating_height
            &&& made.len == before.stage()->Creating_len
            &&& made.backing == created->0
            &&& !made.released
        },
{
}

/// What is reported out of turn is ignored: no frame is shown for it and no buffer
/// changes.
pub proof fn reports_out_of_turn_are_ignored<P>(
    before: ArgbSurface<P>,
    event: PresentEvent<P>,
    after: ArgbSurface<P>,
    action: PresentAction,
)
    requires
        before.presents(event, after, action),
        event is Pumped && !(before.stage() is Pumping) || event is Created && !(
        before.stage() is Creating),
    ensures
        action is Skip,
        after.buffers() == before.buffers(),
        after.stage() is Idle,
        after.next_key() == before.next_key(),
{
}

/// A release frees the buffer that reports it and no other; other events free none.
/// Nothing but that changes.
pub proof fn release_frees_its_own_buffer_only<P>(
    before: ArgbSurface<P>,
    key: u64,
    event: BufferEvent,
    after: ArgbSurface<P>,
)
    requires
        before.hears(key, event, after),
    ensures
        after.buffers().len() == before.buffers().len(),
        after.stage() == before.stage(),
        after.next_key() == before.next_key(),
        forall|i: int|
            0 <= i < before.buffers().len() ==> {
                let was = before.buffers()[i];
                let is_now = #[trigger] after.buffers()[i];
                &&& is_now.key == was.key
                &&& is_now.width == was.width
                &&& is_now.height == was.height
                &&& is_now.len == was.len
                &&& is_now.backing == was.backing
                &&& is_now.released <==> was.released || (event is Release && was.key == key)
            },
{
}

/// What is asked of the system to make a buffer: a file, then that it has the
/// buffer's length, then that all of that is mapped. A reply that is no success ends
/// it.
pub proof fn buffer_is_asked_for_in_order(
    len: usize,
    width: i32,
    height: i32,
    descriptor: i32,
    done: bool,
    null: bool,
    failed: bool,
)
    ensures
        allocation_action(len, width, height, AllocationProgress::Begin) is CreateFile,
        ({
            let action = allocation_action(
                len,
                width,
                height,
                AllocationProgress::FileCreated { descriptor },
            );
            &&& descriptor >= 0 ==> action is Resize && action->Resize_len == len
            &&& descriptor < 0 ==> action is GiveUp
        }),
        ({
            let action = allocation_action(
                len,
                width,
                height,
                AllocationProgress::Resized { done },
            );
            &&& done ==> action is MapShared && action->MapShared_len == len
            &&& !done ==> action is GiveUp
        }),
        ({
            let action = allocation_action(
                len,
                width,
                height,
                AllocationProgress::Mapped { null, failed },
            );
            &&& !null && !failed ==> action is Announce
            &&& null || failed ==> action is GiveUp
        }),
{
}

/// A buffer of an ordinary extent takes four bytes for each of its pixels.
pub proof fn buffers_take_four_bytes_a_pixel(width: i32, height: i32)
    requires
        width >= 0,
        height >= 0,
    ensures
        buffer_len_spec(width, height) == width * height * 4,
{
}

} // verus!
