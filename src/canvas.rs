//! Canvases: each owns a command log, a render state and the size and format of its backing
//! texture. Canvases live in slots addressed by handle; a handle is never reused.
use vstd::prelude::*;
use crate::codec::TextureFormat;
use crate::command::{CommandBuffer, DrawCommand};
use crate::error::ProcessingError;
use crate::render::{
    default_state, flush_draw_commands, spec_flush, FlushPlan, RenderState, Resources,
    ResourcesView, StateView,
};

verus! {

pub struct Canvas {
    pub width: u32,
    pub height: u32,
    pub format: TextureFormat,
    pub log: CommandBuffer,
    pub state: RenderState,
    /// Entities spawned by the last flush, retired before the next one.
    pub transient: Vec<u64>,
}

pub struct CanvasView {
    pub width: u32,
    pub height: u32,
    pub format: TextureFormat,
    pub log: Seq<DrawCommand>,
    pub state: StateView,
    pub transient: Seq<u64>,
}

impl View for Canvas {
    type V = CanvasView;

    open spec fn view(&self) -> CanvasView {
        CanvasView {
            width: self.width,
            height: self.height,
            format: self.format,
            log: self.log.commands@,
            state: self.state@,
            transient: self.transient@,
        }
    }
}

pub struct Canvases {
    slots: Vec<Option<Canvas>>,
}

pub open spec fn option_view(c: Option<Canvas>) -> Option<CanvasView> {
    match c {
        Some(c) => Some(c@),
        None => None,
    }
}

impl Canvases {
    /// The canvas that a handle names, if it exists.
    pub closed spec fn get(&self, h: u64) -> Option<CanvasView> {
        if h < self.slots@.len() {
            option_view(self.slots@[h as int])
        } else {
            None
        }
    }

    /// How many handles have been issued.
    pub closed spec fn handles_issued(&self) -> nat {
        self.slots@.len()
    }

    /// Whether another canvas can still be created.
    pub fn can_create(&self) -> (r: bool)
        ensures
            r == (self.handles_issued() < u64::MAX),
    {
        (self.slots.len() as u64) < u64::MAX
    }

    /// Whether every handle other than `h` names what it named in `other`.
    pub open spec fn others_unchanged(&self, other: &Canvases, h: u64) -> bool {
        forall|k: u64| k != h ==> #[trigger] self.get(k) == other.get(k)
    }

    pub fn new() -> (r: Canvases)
        ensures
            forall|k: u64| r.get(k) is None,
            r.handles_issued() == 0,
    {
        Canvases { slots: Vec::new() }
    }

    /// Creates a canvas with an empty log and default state; returns its handle.
    pub fn create(&mut self, width: u32, height: u32, format: TextureFormat) -> (h: u64)
        requires
            old(self).handles_issued() < u64::MAX,
        ensures
            old(self).get(h) is None,
            final(self).get(h) == Some(
                CanvasView {
                    width,
                    height,
                    format,
                    log: seq![],
                    state: default_state(),
                    transient: seq![],
                },
            ),
            final(self).others_unchanged(old(self), h),
            final(self).handles_issued() == old(self).handles_issued() + 1,
    {
        let c = Canvas {
            width,
            height,
            format,
            log: CommandBuffer::new(),
            state: RenderState::new(),
            transient: Vec::new(),
        };
        proof {
            assert(c@.transient =~= seq![]);
        }
        let h = self.slots.len() as u64;
        self.slots.push(Some(c));
        h
    }

    /// Takes the canvas out of its slot.
    fn take(&mut self, h: u64) -> (r: Result<Canvas, ProcessingError>)
        ensures
            old(self).get(h) is None ==> r == Err::<Canvas, ProcessingError>(
                ProcessingError::GraphicsNotFound,
            ) && final(self).slots@ == old(self).slots@,
            old(self).get(h) is Some ==> (r matches Ok(c) && Some(c@) == old(self).get(h)
                && final(self).slots@ == old(self).slots@.update(h as int, None)),
    {
        if h >= self.slots.len() as u64 {
            return Err(ProcessingError::GraphicsNotFound);
        }
        let i = h as usize;
        let mut slot: Option<Canvas> = None;
        self.slots.set_and_swap(i, &mut slot);
        match slot {
            Some(c) => Ok(c),
            None => {
                let mut back: Option<Canvas> = None;
                self.slots.set_and_swap(i, &mut back);
                proof {
                    assert(self.slots@ =~= old(self).slots@);
                }
                Err(ProcessingError::GraphicsNotFound)
            },
        }
    }

    /// Puts a canvas back into the slot it was taken from.
    fn put(&mut self, h: u64, c: Canvas)
        requires
            h < old(self).slots@.len(),
        ensures
            final(self).slots@ == old(self).slots@.update(h as int, Some(c)),
    {
        let n = self.slots.len();
        assert(h < n);
        let i = h as usize;
        let mut slot = Some(c);
        self.slots.set_and_swap(i, &mut slot);
    }

    /// Destroys a canvas; its handle names nothing afterwards.
    pub fn destroy(&mut self, h: u64) -> (r: Result<(), ProcessingError>)
        ensures
            old(self).get(h) is None ==> r == Err::<(), ProcessingError>(
                ProcessingError::GraphicsNotFound,
            ),
            old(self).get(h) is Some ==> r is Ok,
            final(self).get(h) is None,
            final(self).others_unchanged(old(self), h),
    {
        let r = self.take(h);
        proof {
            assert forall|k: u64| k != h implies #[trigger] self.get(k) == old(self).get(k) by {}
        }
        match r {
            Ok(_) => Ok(()),
            Err(e) => Err(e),
        }
    }

    /// Appends a command to a canvas's log; no other canvas changes.
    pub fn record(&mut self, h: u64, cmd: DrawCommand) -> (r: Result<(), ProcessingError>)
        ensures
            old(self).get(h) is None ==> r == Err::<(), ProcessingError>(
                ProcessingError::GraphicsNotFound,
            ) && final(self).get(h) is None,
            old(self).get(h) is Some ==> r is Ok && final(self).get(h) == Some(
                CanvasView { log: old(self).get(h)->0.log.push(cmd), ..old(self).get(h)->0 },
            ),
            final(self).others_unchanged(old(self), h),
    {
        let mut c = match self.take(h) {
            Ok(c) => c,
            Err(e) => {
                return Err(e);
            },
        };
        c.log.push(cmd);
        self.put(h, c);
        proof {
            assert forall|k: u64| k != h implies #[trigger] self.get(k) == old(self).get(k) by {}
        }
        Ok(())
    }

    /// Resets a canvas's render state to the defaults.
    pub fn begin_draw(&mut self, h: u64) -> (r: Result<(), ProcessingError>)
        ensures
            old(self).get(h) is None ==> r == Err::<(), ProcessingError>(
                ProcessingError::GraphicsNotFound,
            ) && final(self).get(h) is None,
            old(self).get(h) is Some ==> r is Ok && final(self).get(h) == Some(
                CanvasView { state: default_state(), ..old(self).get(h)->0 },
            ),
            final(self).others_unchanged(old(self), h),
    {
        let mut c = match self.take(h) {
            Ok(c) => c,
            Err(e) => {
                return Err(e);
            },
        };
        c.state.reset();
        self.put(h, c);
        proof {
            assert forall|k: u64| k != h implies #[trigger] self.get(k) == old(self).get(k) by {}
        }
        Ok(())
    }

    /// Drains a canvas's log into a plan of drawables. Also hands back the entities of the
    /// previous flush, which the caller retires before spawning the new ones.
    pub fn flush(&mut self, h: u64, res: &Resources) -> (r: Result<
        (FlushPlan, Vec<u64>),
        ProcessingError,
    >)
        ensures
            old(self).get(h) is None ==> r == Err::<(FlushPlan, Vec<u64>), ProcessingError>(
                ProcessingError::GraphicsNotFound,
            ) && final(self).get(h) is None,
            old(self).get(h) is Some ==> ({
                let c = old(self).get(h)->0;
                let f = spec_flush(c.state, c.log, res@);
                &&& r matches Ok((plan, retired))
                &&& plan@.drawables == f.plan.done
                &&& plan@.skipped == f.plan.skipped
                &&& retired@ == c.transient
                &&& final(self).get(h) == Some(
                    CanvasView { log: seq![], state: f.state, transient: seq![], ..c },
                )
            }),
            final(self).others_unchanged(old(self), h),
    {
        let mut c = match self.take(h) {
            Ok(c) => c,
            Err(e) => {
                return Err(e);
            },
        };
        let commands = c.log.take();
        let plan = flush_draw_commands(&mut c.state, &commands, res);
        let mut retired: Vec<u64> = Vec::new();
        std::mem::swap(&mut retired, &mut c.transient);
        self.put(h, c);
        proof {
            assert forall|k: u64| k != h implies #[trigger] self.get(k) == old(self).get(k) by {}
            assert(c@.transient =~= seq![]);
        }
        Ok((plan, retired))
    }

    /// Records the entities spawned for a canvas's latest plan.
    pub fn set_transient(&mut self, h: u64, entities: Vec<u64>) -> (r: Result<(), ProcessingError>)
        ensures
            old(self).get(h) is None ==> r == Err::<(), ProcessingError>(
                ProcessingError::GraphicsNotFound,
            ) && final(self).get(h) is None,
            old(self).get(h) is Some ==> r is Ok && final(self).get(h) == Some(
                CanvasView { transient: entities@, ..old(self).get(h)->0 },
            ),
            final(self).others_unchanged(old(self), h),
    {
        let mut c = match self.take(h) {
            Ok(c) => c,
            Err(e) => {
                return Err(e);
            },
        };
        c.transient = entities;
        self.put(h, c);
        proof {
            assert forall|k: u64| k != h implies #[trigger] self.get(k) == old(self).get(k) by {}
        }
        Ok(())
    }

    /// Changes the size of a canvas's backing texture.
    pub fn resize(&mut self, h: u64, width: u32, height: u32) -> (r: Result<(), ProcessingError>)
        ensures
            old(self).get(h) is None ==> r == Err::<(), ProcessingError>(
                ProcessingError::GraphicsNotFound,
            ) && final(self).get(h) is None,
            old(self).get(h) is Some ==> r is Ok && final(self).get(h) == Some(
                CanvasView { width, height, ..old(self).get(h)->0 },
            ),
            final(self).others_unchanged(old(self), h),
    {
        let mut c = match self.take(h) {
            Ok(c) => c,
            Err(e) => {
                return Err(e);
            },
        };
        c.width = width;
        c.height = height;
        self.put(h, c);
        proof {
            assert forall|k: u64| k != h implies #[trigger] self.get(k) == old(self).get(k) by {}
        }
        Ok(())
    }
}

} // verus!
