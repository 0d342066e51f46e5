//! Xgc — the primary GC handle.
//!
//! The collector moves through `Idle → Marking → Idle` and
//! `Idle → Relocating → Idle`. It keeps the mark worklist, the barrier
//! buffers, the relocation map, the pin registry, the allocation pressure
//! and the list of live heap objects. Obtaining and releasing the memory of
//! heap objects is left to the caller: the collector computes the sizes it
//! needs and decides which objects a sweep frees.
use crate::barrier::mark_state::MarkEpoch;
use crate::barrier::ref_update::RefUpdateBuffer;
use crate::barrier::satb::SatbBuffer;
use crate::colored::{Color, ColoredPtr, pack};
use crate::error::RuntimeError;
use crate::mark::phase::{MarkPhase, PhaseCell};
use crate::mark::worklist::{WORKLIST_CAP, Worklist};
use crate::object::header::OBJECT_HEADER_SIZE;
use crate::object::layout::Alignment;
use crate::pin::handle::PinHandle;
use crate::pin::registry::{REGISTRY_CAP, PinEntry, PinRegistry, pin_spec, pinned_in, slot_of, unpin_spec};
use crate::pressure::threshold::{PressureConfig, PressureMeter, sat_add};
use crate::pressure::trigger::{GcTrigger, should_trigger_spec};
use crate::region::REGION_SIZE;
use crate::region::table::{MAX_REGIONS, RegionTable};
use crate::relocate::{RELOC_CAP, RelocStats, Relocator, forward_spec};
use vstd::prelude::*;

verus! {

/// One heap object obtained through the collector: its base address, its
/// total size (header included) and its color when it was registered.
#[derive(Debug, Clone, Copy, PartialEq, Eq, Structural)]
pub struct LiveObject {
    pub base: usize,
    pub total_bytes: usize,
    pub color: Color,
}

/// The abstract state of a collector.
pub ghost struct XgcModel {
    /// Number of heap regions.
    pub regions: usize,
    /// Whether `init` has run (and `shutdown` not since).
    pub initialized: bool,
    /// The current phase.
    pub phase: MarkPhase,
    /// The current mark epoch.
    pub epoch: u64,
    /// Number of mark cycles begun (saturating).
    pub cycles: u32,
    /// Pending mark work, bottom of the stack first.
    pub work: Seq<ColoredPtr>,
    /// Values recorded by the SATB barrier.
    pub satb: Seq<ColoredPtr>,
    /// Field updates recorded by the reference-update barrier.
    pub ref_updates: Seq<(usize, ColoredPtr)>,
    /// Moves recorded in the current relocation pass.
    pub moves: Seq<(ColoredPtr, ColoredPtr)>,
    /// Whether a relocation pass is active.
    pub relocating: bool,
    /// Objects the current relocation pass skipped because they are pinned
    /// (saturating).
    pub skipped: u32,
    /// The pin registry's slots.
    pub pins: Seq<PinEntry>,
    /// The pin registry's cursor.
    pub pin_cursor: int,
    /// The allocation pressure.
    pub pressure: PressureMeter,
    /// The heap objects obtained through the collector and not yet swept.
    pub live: Seq<LiveObject>,
}

/// Global GC handle.
pub struct Xgc {
    num_regions: usize,
    initialized: bool,
    phase: PhaseCell,
    epoch: MarkEpoch,
    worklist: Worklist,
    satb: SatbBuffer,
    ref_updates: RefUpdateBuffer,
    relocator: Relocator,
    pressure: PressureMeter,
    trigger: GcTrigger,
    pins: PinRegistry,
    cycle_count: u32,
    live_objects: Vec<LiveObject>,
}

/// `a + b` on `usize`, saturating at `usize::MAX`.
pub open spec fn sat_add_usize(a: usize, b: usize) -> int {
    if a + b > usize::MAX {
        usize::MAX as int
    } else {
        a + b
    }
}

/// The total size the collector reserves for an object of `bytes` payload
/// bytes: payload plus header (saturating), rounded up to 64 bytes.
pub open spec fn alloc_total(bytes: usize) -> int {
    (sat_add_usize(bytes, OBJECT_HEADER_SIZE) + 63) / 64 * 64
}

/// Whether a sweep frees an object whose header reads `color`: it is
/// white and its base address is not pinned.
pub open spec fn sweeps(obj: LiveObject, color: Color, pins: Seq<PinEntry>) -> bool {
    color == Color::White && !pinned_in(pins, ColoredPtr(pack(obj.base, Color::White)))
}

/// The objects among the first `n` that a sweep frees, in order.
pub open spec fn swept(objs: Seq<LiveObject>, colors: Seq<Color>, pins: Seq<PinEntry>, n: int) -> Seq<
    LiveObject,
>
    decreases n,
{
    if n <= 0 {
        Seq::empty()
    } else {
        let prev = swept(objs, colors, pins, n - 1);
        if sweeps(objs[n - 1], colors[n - 1], pins) {
            prev.push(objs[n - 1])
        } else {
            prev
        }
    }
}

/// The objects among the first `n` that a sweep keeps, in order.
pub open spec fn kept(objs: Seq<LiveObject>, colors: Seq<Color>, pins: Seq<PinEntry>, n: int) -> Seq<
    LiveObject,
>
    decreases n,
{
    if n <= 0 {
        Seq::empty()
    } else {
        let prev = kept(objs, colors, pins, n - 1);
        if sweeps(objs[n - 1], colors[n - 1], pins) {
            prev
        } else {
            prev.push(objs[n - 1])
        }
    }
}

/// Total size of a sequence of objects.
pub open spec fn total_bytes_of(objs: Seq<LiveObject>) -> int
    decreases objs.len(),
{
    if objs.len() == 0 {
        0
    } else {
        total_bytes_of(objs.drop_last()) + objs.last().total_bytes
    }
}

/// `x + 1`, saturating at `u32::MAX`.
pub open spec fn sat_inc(x: u32) -> u32 {
    if x == u32::MAX {
        u32::MAX
    } else {
        (x + 1) as u32
    }
}

impl View for Xgc {
    type V = XgcModel;

    /// The collector's abstract state.
    closed spec fn view(&self) -> XgcModel {
        XgcModel {
            regions: self.num_regions,
            initialized: self.initialized,
            phase: self.phase@,
            epoch: self.epoch@,
            cycles: self.cycle_count,
            work: self.worklist@,
            satb: self.satb@,
            ref_updates: self.ref_updates@,
            moves: self.relocator.moves(),
            relocating: self.relocator.is_active(),
            skipped: self.relocator.skips(),
            pins: self.pins@,
            pin_cursor: self.pins.cursor(),
            pressure: self.pressure,
            live: self.live_objects@,
        }
    }
}

impl Xgc {
    /// Internal consistency of the collector's parts.
    pub closed spec fn wf(&self) -> bool {
        &&& 0 < self.num_regions <= MAX_REGIONS
        &&& self.phase.wf()
        &&& self.worklist.wf()
        &&& self.satb.wf()
        &&& self.ref_updates.wf()
        &&& self.relocator.wf()
        &&& self.pins.wf()
        &&& self.trigger.last_cycle() == 0
    }

    /// Create a collector over `num_regions` regions.
    ///
    /// # Errors
    ///
    /// `OutOfMemory` for zero regions or more than a region table holds.
    pub fn new(num_regions: usize) -> (r: Result<Xgc, RuntimeError>)
        ensures
            (num_regions == 0 || num_regions > MAX_REGIONS) ==> r == Err::<Xgc, RuntimeError>(
                RuntimeError::OutOfMemory,
            ),
            (0 < num_regions <= MAX_REGIONS) ==> (r matches Ok(g) && {
                &&& g.wf()
                &&& g@.regions == num_regions
                &&& !g@.initialized
                &&& g@.phase == MarkPhase::Idle
                &&& g@.epoch == 0
                &&& g@.cycles == 0
                &&& g@.work == Seq::<ColoredPtr>::empty()
                &&& g@.satb == Seq::<ColoredPtr>::empty()
                &&& g@.ref_updates == Seq::<(usize, ColoredPtr)>::empty()
                &&& g@.moves == Seq::<(ColoredPtr, ColoredPtr)>::empty()
                &&& !g@.relocating
                &&& g@.skipped == 0
                &&& g@.pressure == (PressureMeter { allocated: 0, freed: 0, cycles: 0 })
                &&& g@.live == Seq::<LiveObject>::empty()
                &&& g@.pin_cursor == 0
                &&& g@.pins.len() == REGISTRY_CAP
                &&& forall|i: int| 0 <= i < g@.pins.len() ==> g@.pins[i].count == 0
            }),
    {
        if num_regions == 0 {
            return Err(RuntimeError::OutOfMemory);
        }
        match RegionTable::new(num_regions) {
            Ok(_) => {},
            Err(e) => return Err(e),
        }
        let g = Xgc {
            num_regions,
            initialized: false,
            phase: PhaseCell::new(),
            epoch: MarkEpoch::new(),
            worklist: Worklist::new(),
            satb: SatbBuffer::new(),
            ref_updates: RefUpdateBuffer::new(),
            relocator: Relocator::new(),
            pressure: PressureMeter::new(),
            trigger: GcTrigger::new(),
            pins: PinRegistry::new(),
            cycle_count: 0,
            live_objects: Vec::new(),
        };
        Ok(g)
    }

    /// Initialize the collector.
    ///
    /// # Errors
    ///
    /// `AlreadyInitialized` if it already is.
    pub fn init(&mut self) -> (r: Result<(), RuntimeError>)
        requires
            old(self).wf(),
        ensures
            final(self).wf(),
            old(self)@.initialized ==> r == Err::<(), RuntimeError>(
                RuntimeError::AlreadyInitialized,
            ) && final(self)@ == old(self)@,
            !old(self)@.initialized ==> r is Ok && final(self)@ == (XgcModel {
                initialized: true,
                ..old(self)@
            }),
    {
        if self.initialized {
            return Err(RuntimeError::AlreadyInitialized);
        }
        self.initialized = true;
        Ok(())
    }

    /// Shut the collector down.
    ///
    /// # Errors
    ///
    /// `NotInitialized` if it is not initialized.
    pub fn shutdown(&mut self) -> (r: Result<(), RuntimeError>)
        requires
            old(self).wf(),
        ensures
            final(self).wf(),
            !old(self)@.initialized ==> r == Err::<(), RuntimeError>(RuntimeError::NotInitialized)
                && final(self)@ == old(self)@,
            old(self)@.initialized ==> r is Ok && final(self)@ == (XgcModel {
                initialized: false,
                ..old(self)@
            }),
    {
        if !self.initialized {
            return Err(RuntimeError::NotInitialized);
        }
        self.initialized = false;
        Ok(())
    }

    /// The current phase.
    pub fn phase(&self) -> (r: MarkPhase)
        ensures
            r == self@.phase,
    {
        self.phase.load()
    }

    /// The current mark epoch.
    pub fn epoch(&self) -> (r: u64)
        ensures
            r == self@.epoch,
    {
        self.epoch.current()
    }

    /// Number of mark cycles begun (saturating).
    pub fn cycle_count(&self) -> (r: u32)
        ensures
            r == self@.cycles,
    {
        self.cycle_count
    }

    /// Begin a mark cycle: only from `Idle`. Clears the worklist, counts
    /// the cycle, advances the epoch and returns the new epoch.
    ///
    /// # Errors
    ///
    /// `AlreadyMarking` if the collector is not idle.
    pub fn begin_mark(&mut self) -> (r: Result<u64, RuntimeError>)
        requires
            old(self).wf(),
            old(self)@.phase == MarkPhase::Idle ==> old(self)@.epoch < u64::MAX,
        ensures
            final(self).wf(),
            old(self)@.phase != MarkPhase::Idle ==> r == Err::<u64, RuntimeError>(
                RuntimeError::AlreadyMarking,
            ) && final(self)@ == old(self)@,
            old(self)@.phase == MarkPhase::Idle ==> r == Ok::<u64, RuntimeError>(
                (old(self)@.epoch + 1) as u64,
            ) && final(self)@ == (XgcModel {
                phase: MarkPhase::Marking,
                epoch: (old(self)@.epoch + 1) as u64,
                cycles: sat_inc(old(self)@.cycles),
                work: Seq::<ColoredPtr>::empty(),
                ..old(self)@
            }),
    {
        if !self.phase.cas(MarkPhase::Idle, MarkPhase::Marking) {
            return Err(RuntimeError::AlreadyMarking);
        }
        self.worklist.clear();
        self.cycle_count = self.cycle_count.saturating_add(1);
        Ok(self.epoch.advance())
    }

    /// Push a root onto the mark worklist.
    ///
    /// # Errors
    ///
    /// `StackOverflow` if the worklist is full.
    pub fn push_root(&mut self, root: ColoredPtr) -> (r: Result<(), RuntimeError>)
        requires
            old(self).wf(),
        ensures
            final(self).wf(),
            old(self)@.work.len() >= WORKLIST_CAP ==> r == Err::<(), RuntimeError>(
                RuntimeError::StackOverflow,
            ) && final(self)@ == old(self)@,
            old(self)@.work.len() < WORKLIST_CAP ==> r is Ok && final(self)@ == (XgcModel {
                work: old(self)@.work.push(root),
                ..old(self)@
            }),
    {
        self.worklist.push(root)
    }

    /// Pop the most recently pushed mark work item.
    pub fn pop_work(&mut self) -> (r: Option<ColoredPtr>)
        requires
            old(self).wf(),
        ensures
            final(self).wf(),
            old(self)@.work.len() == 0 ==> r is None && final(self)@ == old(self)@,
            old(self)@.work.len() > 0 ==> r == Some(old(self)@.work.last()) && final(self)@ == (
            XgcModel { work: old(self)@.work.drop_last(), ..old(self)@ }),
    {
        self.worklist.pop()
    }

    /// Finish the mark cycle: back to `Idle`, and end the pressure cycle.
    pub fn finish_mark(&mut self)
        requires
            old(self).wf(),
        ensures
            final(self).wf(),
            final(self)@ == (XgcModel {
                phase: MarkPhase::Idle,
                pressure: PressureMeter {
                    allocated: 0,
                    cycles: sat_inc(old(self)@.pressure.cycles),
                    ..old(self)@.pressure
                },
                ..old(self)@
            }),
    {
        self.phase.store(MarkPhase::Idle);
        self.pressure.end_cycle();
    }

    /// Begin a relocation pass.
    pub fn begin_relocate(&mut self)
        requires
            old(self).wf(),
        ensures
            final(self).wf(),
            final(self)@ == (XgcModel {
                phase: MarkPhase::Relocating,
                relocating: true,
                ..old(self)@
            }),
    {
        self.relocator.begin();
        self.phase.store(MarkPhase::Relocating);
    }

    /// Record that `old` moved to `new`; a pinned object is not moved but
    /// counted as skipped.
    ///
    /// # Errors
    ///
    /// `StackOverflow` if the relocation map is full.
    pub fn record_move(&mut self, old_ptr: ColoredPtr, new_ptr: ColoredPtr) -> (r: Result<
        (),
        RuntimeError,
    >)
        requires
            old(self).wf(),
        ensures
            final(self).wf(),
            pinned_in(old(self)@.pins, old_ptr) ==> r is Ok && final(self)@ == (XgcModel {
                skipped: sat_inc(old(self)@.skipped),
                ..old(self)@
            }),
            !pinned_in(old(self)@.pins, old_ptr) && old(self)@.moves.len() >= RELOC_CAP ==> r
                == Err::<(), RuntimeError>(RuntimeError::StackOverflow) && final(self)@ == old(
                self)@,
            !pinned_in(old(self)@.pins, old_ptr) && old(self)@.moves.len() < RELOC_CAP ==> r is Ok
                && final(self)@ == (XgcModel {
                moves: old(self)@.moves.push((old_ptr, new_ptr)),
                ..old(self)@
            }),
    {
        if self.pins.is_pinned(old_ptr) {
            self.relocator.record_skip();
            return Ok(());
        }
        self.relocator.record_move(old_ptr, new_ptr)
    }

    /// Finish the relocation pass: back to `Idle`; returns how many moves
    /// were recorded and how many pinned objects were skipped, and forgets
    /// both.
    pub fn finish_relocate(&mut self) -> (r: RelocStats)
        requires
            old(self).wf(),
        ensures
            final(self).wf(),
            r == (RelocStats { moved: old(self)@.moves.len() as u32, skipped: old(self)@.skipped }),
            final(self)@ == (XgcModel {
                phase: MarkPhase::Idle,
                moves: Seq::<(ColoredPtr, ColoredPtr)>::empty(),
                relocating: false,
                skipped: 0,
                ..old(self)@
            }),
    {
        self.phase.store(MarkPhase::Idle);
        self.relocator.finish()
    }

    /// Record a pre-write value in the SATB buffer.
    ///
    /// # Errors
    ///
    /// `StackOverflow` if the buffer is full.
    pub fn satb_record(&mut self, prev: ColoredPtr) -> (r: Result<(), RuntimeError>)
        requires
            old(self).wf(),
        ensures
            final(self).wf(),
            old(self)@.satb.len() >= crate::barrier::satb::SATB_CAP ==> r == Err::<
                (),
                RuntimeError,
            >(RuntimeError::StackOverflow) && final(self)@ == old(self)@,
            old(self)@.satb.len() < crate::barrier::satb::SATB_CAP ==> r is Ok && final(self)@ == (
            XgcModel { satb: old(self)@.satb.push(prev), ..old(self)@ }),
    {
        self.satb.record(prev)
    }

    /// Record a field update in the reference-update buffer.
    ///
    /// # Errors
    ///
    /// `StackOverflow` if the buffer is full.
    pub fn ref_update_record(&mut self, field: usize, prev: ColoredPtr) -> (r: Result<
        (),
        RuntimeError,
    >)
        requires
            old(self).wf(),
        ensures
            final(self).wf(),
            old(self)@.ref_updates.len() >= crate::barrier::ref_update::REF_UPDATE_CAP ==> r
                == Err::<(), RuntimeError>(RuntimeError::StackOverflow) && final(self)@ == old(
                self)@,
            old(self)@.ref_updates.len() < crate::barrier::ref_update::REF_UPDATE_CAP ==> r is Ok
                && final(self)@ == (XgcModel {
                ref_updates: old(self)@.ref_updates.push((field, prev)),
                ..old(self)@
            }),
    {
        self.ref_updates.record(field, prev)
    }

    /// The color new objects get: grey while marking, white otherwise.
    pub fn allocation_color(&self) -> (r: Color)
        ensures
            r == if self@.phase == MarkPhase::Marking {
                Color::Grey
            } else {
                Color::White
            },
    {
        match self.phase.load() {
            MarkPhase::Marking => Color::Grey,
            _ => Color::White,
        }
    }

    /// Pin an object so relocation skips it.
    ///
    /// # Errors
    ///
    /// `OutOfMemory` if the pin registry is full.
    pub fn pin(&mut self, ptr: ColoredPtr) -> (r: Result<PinHandle, RuntimeError>)
        requires
            old(self).wf(),
            slot_of(old(self)@.pins, ptr, 0) matches Some(i) ==> old(self)@.pins[i].count
                < u32::MAX,
        ensures
            final(self).wf(),
            pin_spec(old(self)@.pins, old(self)@.pin_cursor, ptr) matches Some((e, s)) ==> ({
                &&& r matches Ok(h) && h.spec_id() == s + 1
                &&& final(self)@ == (XgcModel {
                    pins: e,
                    pin_cursor: if slot_of(old(self)@.pins, ptr, 0) is Some {
                        old(self)@.pin_cursor
                    } else {
                        (s + 1) % (crate::pin::registry::REGISTRY_CAP as int)
                    },
                    ..old(self)@
                })
            }),
            pin_spec(old(self)@.pins, old(self)@.pin_cursor, ptr) is None ==> r == Err::<
                PinHandle,
                RuntimeError,
            >(RuntimeError::OutOfMemory) && final(self)@ == old(self)@,
    {
        self.pins.pin(ptr)
    }

    /// Release one pin; true if the object is no longer pinned by it.
    pub fn unpin(&mut self, handle: PinHandle) -> (r: bool)
        requires
            old(self).wf(),
        ensures
            final(self).wf(),
            r == unpin_spec(old(self)@.pins, handle.spec_id()).1,
            final(self)@ == (XgcModel {
                pins: unpin_spec(old(self)@.pins, handle.spec_id()).0,
                ..old(self)@
            }),
    {
        self.pins.unpin(handle)
    }

    /// Whether allocation pressure calls for a collection: the pressure
    /// trigger on a heap of `regions * REGION_SIZE` bytes with the default
    /// 80% threshold.
    pub fn should_collect(&self) -> (r: bool)
        requires
            self.wf(),
            self@.regions * REGION_SIZE <= usize::MAX,
        ensures
            r == should_trigger_spec(
                0,
                PressureConfig {
                    heap_bytes: (self@.regions * REGION_SIZE) as u64,
                    trigger_ratio: 80,
                    min_interval: 0,
                },
                self@.pressure,
                self@.cycles,
            ),
    {
        let config = PressureConfig::default_for((self.num_regions * REGION_SIZE) as u64);
        self.trigger.should_trigger(&config, &self.pressure, self.cycle_count)
    }

    /// Record an allocation request of `bytes` payload bytes in the
    /// pressure meter and compute the total size to reserve: payload plus
    /// header, rounded up to a 64-byte multiple (the alignment of heap
    /// objects).
    ///
    /// # Errors
    ///
    /// `OutOfMemory` if that size is not a valid allocation size (over
    /// `isize::MAX`); the request is still counted.
    pub fn allocation_size(&mut self, bytes: usize) -> (r: Result<usize, RuntimeError>)
        requires
            old(self).wf(),
            sat_add_usize(bytes, OBJECT_HEADER_SIZE) + 63 <= usize::MAX,
        ensures
            final(self).wf(),
            final(self)@ == (XgcModel {
                pressure: PressureMeter {
                    allocated: sat_add(old(self)@.pressure.allocated, bytes as u64),
                    ..old(self)@.pressure
                },
                ..old(self)@
            }),
            alloc_total(bytes) <= isize::MAX ==> r == Ok::<usize, RuntimeError>(
                alloc_total(bytes) as usize,
            ),
            alloc_total(bytes) > isize::MAX ==> r == Err::<usize, RuntimeError>(
                RuntimeError::OutOfMemory,
            ),
    {
        self.pressure.record_alloc(bytes as u64);
        let mut total = bytes.saturating_add(OBJECT_HEADER_SIZE);
        assert(total == sat_add_usize(bytes, OBJECT_HEADER_SIZE));
        let align = Alignment::A64.bytes();
        let t = total + (align - 1);
        total = t & !(align - 1);
        proof {
            assert(t & !63usize == t - t % 64) by (bit_vector);
            assert(t - t % 64 == t / 64 * 64) by (nonlinear_arith);
        }
        if total > isize::MAX as usize {
            return Err(RuntimeError::OutOfMemory);
        }
        Ok(total)
    }

    /// Register a heap object of `total_bytes` bytes at `base`, obtained
    /// for an allocation; it starts white.
    pub fn track_allocation(&mut self, base: usize, total_bytes: usize)
        requires
            old(self).wf(),
        ensures
            final(self).wf(),
            final(self)@ == (XgcModel {
                live: old(self)@.live.push(LiveObject { base, total_bytes, color: Color::White }),
                ..old(self)@
            }),
    {
        self.live_objects.push(LiveObject { base, total_bytes, color: Color::White });
    }

    /// Sweep: free every live object whose header reads white and whose
    /// base is not pinned. `header_colors[i]` is the color read from the
    /// header of the `i`-th live object. Returns the number of objects
    /// freed, the bytes reclaimed, and the freed objects (whose memory the
    /// caller releases); the freed bytes are counted in the pressure meter
    /// and the other objects stay live, in order.
    pub fn sweep(&mut self, header_colors: &Vec<Color>) -> (r: (u32, u64, Vec<LiveObject>))
        requires
            old(self).wf(),
            header_colors@.len() == old(self)@.live.len(),
            swept(old(self)@.live, header_colors@, old(self)@.pins, old(self)@.live.len() as int).len()
                <= u32::MAX,
            total_bytes_of(
                swept(old(self)@.live, header_colors@, old(self)@.pins, old(self)@.live.len() as int),
            ) <= u64::MAX,
        ensures
            final(self).wf(),
            ({
                let gone = swept(
                    old(self)@.live,
                    header_colors@,
                    old(self)@.pins,
                    old(self)@.live.len() as int,
                );
                &&& r.2@ == gone
                &&& forall|k: int|
                    0 <= k < gone.len() ==> exists|i: int|
                        0 <= i < old(self)@.live.len() && #[trigger] gone[k] == old(self)@.live[i]
                            && header_colors@[i] == Color::White
                &&& r.0 == gone.len()
                &&& r.1 == total_bytes_of(gone)
                &&& final(self)@ == (XgcModel {
                    live: kept(
                        old(self)@.live,
                        header_colors@,
                        old(self)@.pins,
                        old(self)@.live.len() as int,
                    ),
                    pressure: PressureMeter {
                        freed: sat_add(old(self)@.pressure.freed, r.1),
                        ..old(self)@.pressure
                    },
                    ..old(self)@
                })
            }),
    {
        let ghost objs = self.live_objects@;
        let ghost pins = self.pins@;
        let ghost freed0 = self.pressure.freed;
        let ghost total_gone = total_bytes_of(swept(objs, header_colors@, pins, objs.len() as int));
        let mut freed: u32 = 0;
        let mut reclaimed: u64 = 0;
        let mut gone: Vec<LiveObject> = Vec::new();
        let mut remaining: Vec<LiveObject> = Vec::new();
        let mut i: usize = 0;
        let n = self.live_objects.len();
        while i < n
            invariant
                self.wf(),
                self.live_objects@ == objs,
                self.pins@ == pins,
                self@ == (XgcModel {
                    pressure: PressureMeter { freed: self.pressure.freed, ..old(self)@.pressure },
                    ..old(self)@
                }),
                n == objs.len(),
                header_colors@.len() == n,
                swept(objs, header_colors@, pins, n as int).len() <= u32::MAX,
                total_gone <= u64::MAX,
                total_gone == total_bytes_of(swept(objs, header_colors@, pins, n as int)),
                i <= n,
                gone@ == swept(objs, header_colors@, pins, i as int),
                remaining@ == kept(objs, header_colors@, pins, i as int),
                freed == gone@.len(),
                gone@.len() <= i,
                reclaimed == total_bytes_of(gone@),
                self.pressure.freed == sat_add(freed0, reclaimed),
            decreases n - i,
        {
            let obj = self.live_objects[i];
            let color = header_colors[i];
            proof {
                lemma_swept_len(objs, header_colors@, pins, i as int);
                lemma_swept_len_mono(objs, header_colors@, pins, i as int + 1, n as int);
                lemma_swept_total_mono(objs, header_colors@, pins, i as int + 1, n as int);
            }
            if color == Color::White && !self.pins.is_pinned(ColoredPtr::new(obj.base, Color::White)) {
                freed = freed + 1;
                proof {
                    assert(gone@.push(obj).drop_last() =~= gone@);
                }
                reclaimed = reclaimed + obj.total_bytes as u64;
                self.pressure.record_free(obj.total_bytes as u64);
                gone.push(obj);
            } else {
                remaining.push(obj);
            }
            i = i + 1;
        }
        self.live_objects = remaining;
        proof {
            assert forall|k: int| 0 <= k < gone@.len() implies exists|j: int|
                0 <= j < objs.len() && #[trigger] gone@[k] == objs[j] && header_colors@[j]
                    == Color::White by {
                law_sweep_frees_only_garbage(objs, header_colors@, pins, n as int, k);
            }
        }
        (freed, reclaimed, gone)
    }

    /// Whether `sweep` can run with these header colors: one color per
    /// live object, at most `u32::MAX` objects freed, and their bytes
    /// within `u64` (beyond either bound, counting them overflows).
    pub fn sweep_fits(&self, header_colors: &Vec<Color>) -> (r: bool)
        requires
            self.wf(),
        ensures
            r == (header_colors@.len() == self@.live.len() && swept(
                self@.live,
                header_colors@,
                self@.pins,
                self@.live.len() as int,
            ).len() <= u32::MAX && total_bytes_of(
                swept(self@.live, header_colors@, self@.pins, self@.live.len() as int),
            ) <= u64::MAX),
    {
        let n = self.live_objects.len();
        if header_colors.len() != n {
            return false;
        }
        let ghost objs = self.live_objects@;
        let ghost pins = self.pins@;
        let mut count: usize = 0;
        let mut bytes: u64 = 0;
        let mut i: usize = 0;
        while i < n
            invariant
                self.wf(),
                self.live_objects@ == objs,
                self.pins@ == pins,
                n == objs.len(),
                header_colors@.len() == n,
                i <= n,
                count == swept(objs, header_colors@, pins, i as int).len(),
                count <= i,
                bytes == total_bytes_of(swept(objs, header_colors@, pins, i as int)),
            decreases n - i,
        {
            let obj = self.live_objects[i];
            proof {
                lemma_swept_len(objs, header_colors@, pins, i as int);
                let prev = swept(objs, header_colors@, pins, i as int);
                assert(prev.push(obj).drop_last() =~= prev);
            }
            if header_colors[i] == Color::White && !self.pins.is_pinned(
                ColoredPtr::new(obj.base, Color::White),
            ) {
                count = count + 1;
                match bytes.checked_add(obj.total_bytes as u64) {
                    Some(b) => {
                        bytes = b;
                    },
                    None => {
                        proof {
                            lemma_swept_total_mono(objs, header_colors@, pins, i + 1, n as int);
                        }
                        return false;
                    },
                }
            }
            i = i + 1;
        }
        count <= u32::MAX as usize
    }

    /// The base address of every live object, in registration order.
    pub fn scan_objects(&self) -> (r: Vec<usize>)
        ensures
            r@ == self@.live.map_values(|o: LiveObject| o.base),
    {
        let mut out: Vec<usize> = Vec::new();
        let mut i: usize = 0;
        while i < self.live_objects.len()
            invariant
                i <= self.live_objects@.len(),
                out@ == self.live_objects@.take(i as int).map_values(|o: LiveObject| o.base),
            decreases self.live_objects@.len() - i,
        {
            out.push(self.live_objects[i].base);
            proof {
                assert(self.live_objects@.take(i + 1).map_values(|o: LiveObject| o.base) =~= out@);
            }
            i = i + 1;
        }
        proof {
            assert(self.live_objects@.take(self.live_objects@.len() as int) =~= self.live_objects@);
        }
        out
    }

    /// Forward a pointer through the relocation map.
    pub fn forward(&self, ptr: ColoredPtr) -> (r: ColoredPtr)
        requires
            self.wf(),
        ensures
            r == forward_spec(self@.moves, self@.relocating, ptr),
    {
        self.relocator.forward(ptr)
    }
}

/// Every object a sweep frees is white and unpinned: a sweep never frees a
/// pinned object or one marked grey or black.
pub proof fn law_sweep_frees_only_garbage(
    objs: Seq<LiveObject>,
    colors: Seq<Color>,
    pins: Seq<PinEntry>,
    n: int,
    k: int,
)
    requires
        0 <= n <= objs.len(),
        colors.len() == objs.len(),
        0 <= k < swept(objs, colors, pins, n).len(),
    ensures
        exists|i: int|
            0 <= i < n && swept(objs, colors, pins, n)[k] == #[trigger] objs[i] && colors[i]
                == Color::White && !pinned_in(pins, ColoredPtr(pack(objs[i].base, Color::White))),
    decreases n,
{
    let s0 = swept(objs, colors, pins, n - 1);
    if k < s0.len() {
        law_sweep_frees_only_garbage(objs, colors, pins, n - 1, k);
        let i = choose|i: int|
            0 <= i < n - 1 && s0[k] == #[trigger] objs[i] && colors[i] == Color::White
                && !pinned_in(pins, ColoredPtr(pack(objs[i].base, Color::White)));
        assert(swept(objs, colors, pins, n)[k] == objs[i]);
    } else {
        assert(swept(objs, colors, pins, n)[k] == objs[n - 1]);
        assert(sweeps(objs[n - 1], colors[n - 1], pins));
        assert(colors[n - 1] == Color::White);
    }
}

/// A sweep frees every object whose header reads white and that is not
/// pinned: each such object is among the freed ones.
pub proof fn law_sweep_frees_all_garbage(
    objs: Seq<LiveObject>,
    colors: Seq<Color>,
    pins: Seq<PinEntry>,
    n: int,
    i: int,
)
    requires
        0 <= i < n <= objs.len(),
        colors.len() == objs.len(),
        colors[i] == Color::White,
        !pinned_in(pins, ColoredPtr(pack(objs[i].base, Color::White))),
    ensures
        swept(objs, colors, pins, n).contains(objs[i]),
    decreases n,
{
    if i < n - 1 {
        law_sweep_frees_all_garbage(objs, colors, pins, n - 1, i);
        let s0 = swept(objs, colors, pins, n - 1);
        let k = choose|k: int| 0 <= k < s0.len() && s0[k] == objs[i];
        let s1 = swept(objs, colors, pins, n);
        if sweeps(objs[n - 1], colors[n - 1], pins) {
            assert(s1[k] == objs[i]);
        }
    } else {
        let s0 = swept(objs, colors, pins, n - 1);
        assert(swept(objs, colors, pins, n)[s0.len() as int] == objs[i]);
    }
}

/// Every object a sweep keeps reads grey or black, or is pinned.
pub proof fn law_sweep_keeps_the_rest(
    objs: Seq<LiveObject>,
    colors: Seq<Color>,
    pins: Seq<PinEntry>,
    n: int,
    k: int,
)
    requires
        0 <= n <= objs.len(),
        colors.len() == objs.len(),
        0 <= k < kept(objs, colors, pins, n).len(),
    ensures
        exists|i: int|
            0 <= i < n && kept(objs, colors, pins, n)[k] == #[trigger] objs[i] && (colors[i]
                != Color::White || pinned_in(pins, ColoredPtr(pack(objs[i].base, Color::White)))),
    decreases n,
{
    let k0 = kept(objs, colors, pins, n - 1);
    if k < k0.len() {
        law_sweep_keeps_the_rest(objs, colors, pins, n - 1, k);
        let i = choose|i: int|
            0 <= i < n - 1 && k0[k] == #[trigger] objs[i] && (colors[i] != Color::White
                || pinned_in(pins, ColoredPtr(pack(objs[i].base, Color::White))));
        assert(kept(objs, colors, pins, n)[k] == objs[i]);
    } else {
        assert(kept(objs, colors, pins, n)[k] == objs[n - 1]);
        assert(!sweeps(objs[n - 1], colors[n - 1], pins));
    }
}

/// A sweep accounts for every live object exactly once: each is either
/// freed or kept.
pub proof fn law_sweep_partition(objs: Seq<LiveObject>, colors: Seq<Color>, pins: Seq<PinEntry>, n: int)
    requires
        0 <= n <= objs.len(),
    ensures
        swept(objs, colors, pins, n).len() + kept(objs, colors, pins, n).len() == n,
    decreases n,
{
    if n > 0 {
        law_sweep_partition(objs, colors, pins, n - 1);
    }
}

/// A mark cycle cannot start twice: `begin_mark` succeeds only from
/// `Idle`, after which the collector is `Marking`, where it fails.
pub proof fn law_begin_mark_once(m: XgcModel)
    requires
        m.phase == MarkPhase::Idle,
    ensures
        (XgcModel { phase: MarkPhase::Marking, ..m }).phase != MarkPhase::Idle,
{
}

/// The freed objects are at most the objects looked at.
pub proof fn lemma_swept_len(objs: Seq<LiveObject>, colors: Seq<Color>, pins: Seq<PinEntry>, n: int)
    requires
        0 <= n,
    ensures
        swept(objs, colors, pins, n).len() <= n,
    decreases n,
{
    if n > 0 {
        lemma_swept_len(objs, colors, pins, n - 1);
    }
}

/// The header colors of the objects among the first `n` that a sweep
/// keeps, in order.
pub open spec fn kept_colors(objs: Seq<LiveObject>, colors: Seq<Color>, pins: Seq<PinEntry>, n: int) -> Seq<
    Color,
>
    decreases n,
{
    if n <= 0 {
        Seq::empty()
    } else {
        let prev = kept_colors(objs, colors, pins, n - 1);
        if sweeps(objs[n - 1], colors[n - 1], pins) {
            prev
        } else {
            prev.push(colors[n - 1])
        }
    }
}

/// Every kept object, with its color, is one a sweep keeps.
pub proof fn lemma_kept_not_swept(objs: Seq<LiveObject>, colors: Seq<Color>, pins: Seq<PinEntry>, n: int)
    requires
        0 <= n,
    ensures
        kept(objs, colors, pins, n).len() == kept_colors(objs, colors, pins, n).len(),
        forall|i: int|
            0 <= i < kept(objs, colors, pins, n).len() ==> !sweeps(
                #[trigger] kept(objs, colors, pins, n)[i],
                kept_colors(objs, colors, pins, n)[i],
                pins,
            ),
    decreases n,
{
    if n > 0 {
        lemma_kept_not_swept(objs, colors, pins, n - 1);
    }
}

/// A sweep over objects none of which it frees frees nothing and keeps
/// them all.
pub proof fn lemma_sweep_none(objs: Seq<LiveObject>, colors: Seq<Color>, pins: Seq<PinEntry>, m: int)
    requires
        0 <= m <= objs.len(),
        forall|i: int| 0 <= i < m ==> !sweeps(#[trigger] objs[i], colors[i], pins),
    ensures
        swept(objs, colors, pins, m) == Seq::<LiveObject>::empty(),
        kept(objs, colors, pins, m) == objs.take(m),
    decreases m,
{
    if m > 0 {
        lemma_sweep_none(objs, colors, pins, m - 1);
        assert(objs.take(m - 1).push(objs[m - 1]) =~= objs.take(m));
    } else {
        assert(objs.take(0) =~= Seq::<LiveObject>::empty());
    }
}

/// Sweeping is idempotent: when the objects a sweep kept still read the
/// same header colors and the pins are unchanged, a second sweep frees
/// nothing (and so reclaims 0 bytes) and keeps every object.
pub proof fn law_sweep_idempotent(objs: Seq<LiveObject>, colors: Seq<Color>, pins: Seq<PinEntry>, n: int)
    requires
        0 <= n,
    ensures
        ({
            let k = kept(objs, colors, pins, n);
            let kc = kept_colors(objs, colors, pins, n);
            &&& swept(k, kc, pins, k.len() as int) == Seq::<LiveObject>::empty()
            &&& total_bytes_of(swept(k, kc, pins, k.len() as int)) == 0
            &&& kept(k, kc, pins, k.len() as int) == k
        }),
{
    let k = kept(objs, colors, pins, n);
    let kc = kept_colors(objs, colors, pins, n);
    lemma_kept_not_swept(objs, colors, pins, n);
    lemma_sweep_none(k, kc, pins, k.len() as int);
    assert(k.take(k.len() as int) =~= k);
}

/// Objects freed only grow in number as more objects are looked at.
pub proof fn lemma_swept_len_mono(
    objs: Seq<LiveObject>,
    colors: Seq<Color>,
    pins: Seq<PinEntry>,
    a: int,
    b: int,
)
    requires
        0 <= a <= b,
    ensures
        swept(objs, colors, pins, a).len() <= swept(objs, colors, pins, b).len(),
    decreases b - a,
{
    if a < b {
        lemma_swept_len_mono(objs, colors, pins, a, b - 1);
    }
}

/// Bytes freed only grow as more objects are looked at.
pub proof fn lemma_swept_total_mono(
    objs: Seq<LiveObject>,
    colors: Seq<Color>,
    pins: Seq<PinEntry>,
    a: int,
    b: int,
)
    requires
        0 <= a <= b,
    ensures
        total_bytes_of(swept(objs, colors, pins, a)) <= total_bytes_of(swept(objs, colors, pins, b)),
    decreases b - a,
{
    if a < b {
        lemma_swept_total_mono(objs, colors, pins, a, b - 1);
        let prev = swept(objs, colors, pins, b - 1);
        if sweeps(objs[b - 1], colors[b - 1], pins) {
            assert(prev.push(objs[b - 1]).drop_last() =~= prev);
        }
    }
}

} // verus!
