//! Render state and the batching planner.
//!
//! A flush replays a canvas's command log against its render state and produces a plan: the
//! ordered drawables of the frame. Consecutive shape passes that share a material key and a
//! transform are merged into one batch; meshes, primitives and backgrounds always stand
//! alone. A drawable's index in the plan is its draw index: later drawables are drawn on
//! top of earlier ones.
use vstd::prelude::*;
use crate::command::{black, spec_is_transparent, white, Color, DrawCommand, Radii};
use crate::material::{default_key, spec_pass_key, MaterialKey};
use crate::scalar::{Scalar, ONE_BITS};
use crate::transform::{
    same_ops, spec_apply, spec_pop, spec_push, spec_reset, translation, TransformOp,
    TransformStack, TransformStackView,
};

verus! {

#[derive(Clone, Copy, Debug, PartialEq, Eq, Structural, Hash)]
pub enum TessellationMode {
    Fill,
    Stroke(Scalar),
}

/// One tessellation job: a rectangle with rounded corners, filled or outlined.
#[derive(Clone, Copy, Debug, PartialEq, Eq, Structural, Hash)]
pub struct RectShape {
    pub x: Scalar,
    pub y: Scalar,
    pub w: Scalar,
    pub h: Scalar,
    pub radii: Radii,
    pub color: Color,
    pub mode: TessellationMode,
}

/// What a drawable shows.
#[derive(Clone, Copy, Debug, PartialEq, Eq, Structural, Hash)]
pub enum DrawableKind {
    /// The merged shapes of one batch.
    Batch,
    /// A quad covering the whole canvas, in canvas coordinates.
    Background { color: Color, image: Option<u64> },
    /// A retained geometry.
    Geometry(u64),
    Box { width: Scalar, height: Scalar, depth: Scalar },
    Sphere { radius: Scalar, sectors: u32, stacks: u32 },
}

/// One entity to spawn for the frame.
pub struct Drawable {
    pub draw_index: u64,
    pub material: MaterialKey,
    pub transform: Vec<TransformOp>,
    pub kind: DrawableKind,
    pub shapes: Vec<RectShape>,
}

pub struct DrawableView {
    pub draw_index: nat,
    pub material: MaterialKey,
    pub transform: Seq<TransformOp>,
    pub kind: DrawableKind,
    pub shapes: Seq<RectShape>,
}

impl View for Drawable {
    type V = DrawableView;

    open spec fn view(&self) -> DrawableView {
        DrawableView {
            draw_index: self.draw_index as nat,
            material: self.material,
            transform: self.transform@,
            kind: self.kind,
            shapes: self.shapes@,
        }
    }
}

/// The outcome of a flush: the drawables in draw order, and the positions in the log of the
/// commands skipped because they named a missing image, geometry or material.
pub struct FlushPlan {
    pub drawables: Vec<Drawable>,
    pub skipped: Vec<usize>,
}

pub struct FlushPlanView {
    pub drawables: Seq<DrawableView>,
    pub skipped: Seq<usize>,
}

impl View for FlushPlan {
    type V = FlushPlanView;

    open spec fn view(&self) -> FlushPlanView {
        FlushPlanView {
            drawables: self.drawables@.map_values(|d: Drawable| d@),
            skipped: self.skipped@,
        }
    }
}

/// The handles that exist when a flush runs.
pub struct Resources {
    pub images: Vec<u64>,
    pub geometries: Vec<u64>,
    pub materials: Vec<u64>,
}

pub struct ResourcesView {
    pub images: Seq<u64>,
    pub geometries: Seq<u64>,
    pub materials: Seq<u64>,
}

impl View for Resources {
    type V = ResourcesView;

    open spec fn view(&self) -> ResourcesView {
        ResourcesView {
            images: self.images@,
            geometries: self.geometries@,
            materials: self.materials@,
        }
    }
}

/// The paint and transform state of a canvas. It persists across flushes.
pub struct RenderState {
    pub fill_color: Option<Color>,
    pub stroke_color: Option<Color>,
    pub stroke_weight: Scalar,
    pub material_key: MaterialKey,
    pub transform: TransformStack,
}

pub struct StateView {
    pub fill: Option<Color>,
    pub stroke: Option<Color>,
    pub weight: Scalar,
    pub material: MaterialKey,
    pub transform: TransformStackView,
}

impl View for RenderState {
    type V = StateView;

    open spec fn view(&self) -> StateView {
        StateView {
            fill: self.fill_color,
            stroke: self.stroke_color,
            weight: self.stroke_weight,
            material: self.material_key,
            transform: self.transform@,
        }
    }
}

/// White fill, black stroke of weight one, the default material, the identity transform
/// with nothing saved.
pub open spec fn default_state() -> StateView {
    StateView {
        fill: Some(white()),
        stroke: Some(black()),
        weight: Scalar { bits: ONE_BITS },
        material: default_key(),
        transform: TransformStackView { current: seq![], saved: seq![] },
    }
}

pub open spec fn spec_fill_is_transparent(s: StateView) -> bool {
    match s.fill {
        Some(c) => spec_is_transparent(c),
        None => false,
    }
}

pub open spec fn spec_stroke_is_transparent(s: StateView) -> bool {
    match s.stroke {
        Some(c) => spec_is_transparent(c),
        None => false,
    }
}

impl RenderState {
    pub fn new() -> (r: RenderState)
        ensures
            r@ == default_state(),
    {
        let r = RenderState {
            fill_color: Some(Color::white()),
            stroke_color: Some(Color::black()),
            stroke_weight: Scalar::one(),
            material_key: MaterialKey::default_key(),
            transform: TransformStack::new(),
        };
        proof {
            assert(r@.transform.current =~= seq![]);
            assert(r@.transform.saved =~= seq![]);
        }
        r
    }

    /// Back to the defaults; the only place where state is reset.
    pub fn reset(&mut self)
        ensures
            final(self)@ == default_state(),
    {
        *self = RenderState::new();
    }

    pub fn fill_is_transparent(&self) -> (r: bool)
        ensures
            r == spec_fill_is_transparent(self@),
    {
        match self.fill_color {
            Some(c) => c.is_transparent(),
            None => false,
        }
    }

    pub fn stroke_is_transparent(&self) -> (r: bool)
        ensures
            r == spec_stroke_is_transparent(self@),
    {
        match self.stroke_color {
            Some(c) => c.is_transparent(),
            None => false,
        }
    }
}

/// The batch being filled.
pub struct Batch {
    pub material: MaterialKey,
    pub transform: Seq<TransformOp>,
    pub shapes: Seq<RectShape>,
}

pub struct PlanView {
    pub open: Option<Batch>,
    pub done: Seq<DrawableView>,
    pub skipped: Seq<usize>,
}

pub struct Replay {
    pub state: StateView,
    pub plan: PlanView,
}

pub open spec fn empty_plan() -> PlanView {
    PlanView { open: None, done: seq![], skipped: seq![] }
}

/// Closes the open batch, if any, into the next drawable.
pub open spec fn spec_close(p: PlanView) -> PlanView {
    match p.open {
        None => p,
        Some(b) => PlanView {
            open: None,
            done: p.done.push(
                DrawableView {
                    draw_index: p.done.len(),
                    material: b.material,
                    transform: b.transform,
                    kind: DrawableKind::Batch,
                    shapes: b.shapes,
                },
            ),
            skipped: p.skipped,
        },
    }
}

/// Closes the open batch, then adds a drawable of its own.
pub open spec fn spec_emit(
    p: PlanView,
    material: MaterialKey,
    transform: Seq<TransformOp>,
    kind: DrawableKind,
) -> PlanView {
    let c = spec_close(p);
    PlanView {
        open: None,
        done: c.done.push(
            DrawableView {
                draw_index: c.done.len(),
                material,
                transform,
                kind,
                shapes: seq![],
            },
        ),
        skipped: c.skipped,
    }
}

/// Adds one shape pass painted with `color`: into the open batch when its key and transform
/// are those of the pass, else into a new batch after closing the open one.
pub open spec fn spec_add_shape(p: PlanView, s: StateView, color: Color, shape: RectShape) -> PlanView {
    let key = spec_pass_key(s.material, spec_is_transparent(color));
    let cur = s.transform.current;
    if p.open is Some && p.open->0.material == key && p.open->0.transform == cur {
        PlanView {
            open: Some(
                Batch {
                    material: key,
                    transform: cur,
                    shapes: p.open->0.shapes.push(shape),
                },
            ),
            done: p.done,
            skipped: p.skipped,
        }
    } else {
        let c = spec_close(p);
        PlanView {
            open: Some(Batch { material: key, transform: cur, shapes: seq![shape] }),
            done: c.done,
            skipped: c.skipped,
        }
    }
}

pub open spec fn spec_skip(r: Replay, idx: usize) -> Replay {
    Replay {
        state: r.state,
        plan: PlanView { open: r.plan.open, done: r.plan.done, skipped: r.plan.skipped.push(idx) },
    }
}

pub open spec fn with_state(r: Replay, s: StateView) -> Replay {
    Replay { state: s, plan: r.plan }
}

pub open spec fn with_transform(r: Replay, t: TransformStackView) -> Replay {
    Replay { state: StateView { transform: t, ..r.state }, plan: r.plan }
}

pub open spec fn with_plan(r: Replay, p: PlanView) -> Replay {
    Replay { state: r.state, plan: p }
}

/// The key of a mesh or primitive drawn with the current material.
pub open spec fn mesh_key(s: StateView) -> MaterialKey {
    spec_pass_key(s.material, false)
}

/// The fill pass, then the stroke pass, of a rectangle.
pub open spec fn spec_rect(r: Replay, x: Scalar, y: Scalar, w: Scalar, h: Scalar, radii: Radii) -> PlanView {
    let s = r.state;
    let p1 = match s.fill {
        Some(c) => spec_add_shape(
            r.plan,
            s,
            c,
            RectShape { x, y, w, h, radii, color: c, mode: TessellationMode::Fill },
        ),
        None => r.plan,
    };
    match s.stroke {
        Some(c) => spec_add_shape(
            p1,
            s,
            c,
            RectShape { x, y, w, h, radii, color: c, mode: TessellationMode::Stroke(s.weight) },
        ),
        None => p1,
    }
}

/// One command of the replay; `idx` is its position in the log.
pub open spec fn spec_step(r: Replay, idx: usize, cmd: DrawCommand, res: ResourcesView) -> Replay {
    let s = r.state;
    match cmd {
        DrawCommand::Fill(c) => with_state(r, StateView { fill: Some(c), ..s }),
        DrawCommand::NoFill => with_state(r, StateView { fill: None, ..s }),
        DrawCommand::StrokeColor(c) => with_state(r, StateView { stroke: Some(c), ..s }),
        DrawCommand::NoStroke => with_state(r, StateView { stroke: None, ..s }),
        DrawCommand::StrokeWeight(wt) => with_state(r, StateView { weight: wt, ..s }),
        DrawCommand::Rect { x, y, w, h, radii } => with_plan(r, spec_rect(r, x, y, w, h, radii)),
        DrawCommand::BackgroundColor(c) => with_plan(
            r,
            spec_emit(
                r.plan,
                MaterialKey::Color { transparent: spec_is_transparent(c), background_image: None },
                seq![],
                DrawableKind::Background { color: c, image: None },
            ),
        ),
        DrawCommand::BackgroundImage(img) => if res.images.contains(img) {
            with_plan(
                r,
                spec_emit(
                    r.plan,
                    MaterialKey::Color { transparent: false, background_image: Some(img) },
                    seq![],
                    DrawableKind::Background { color: white(), image: Some(img) },
                ),
            )
        } else {
            spec_skip(r, idx)
        },
        DrawCommand::PushMatrix => with_transform(r, spec_push(s.transform)),
        DrawCommand::PopMatrix => with_transform(r, spec_pop(s.transform)),
        DrawCommand::ResetMatrix => with_transform(r, spec_reset(s.transform)),
        DrawCommand::Translate { x, y } => with_transform(
            r,
            spec_apply(s.transform, translation(x, y)),
        ),
        DrawCommand::Rotate { angle } => with_transform(
            r,
            spec_apply(s.transform, TransformOp::RotateZ { angle }),
        ),
        DrawCommand::Scale { x, y } => with_transform(
            r,
            spec_apply(s.transform, TransformOp::Scale { x, y, z: Scalar { bits: ONE_BITS } }),
        ),
        DrawCommand::ShearX { angle } => with_transform(
            r,
            spec_apply(s.transform, TransformOp::ShearX { angle }),
        ),
        DrawCommand::ShearY { angle } => with_transform(
            r,
            spec_apply(s.transform, TransformOp::ShearY { angle }),
        ),
        DrawCommand::Geometry(g) => if res.geometries.contains(g) {
            with_plan(
                r,
                spec_emit(r.plan, mesh_key(s), s.transform.current, DrawableKind::Geometry(g)),
            )
        } else {
            spec_skip(r, idx)
        },
        DrawCommand::Box { width, height, depth } => with_plan(
            r,
            spec_emit(
                r.plan,
                mesh_key(s),
                s.transform.current,
                DrawableKind::Box { width, height, depth },
            ),
        ),
        DrawCommand::Sphere { radius, sectors, stacks } => with_plan(
            r,
            spec_emit(
                r.plan,
                mesh_key(s),
                s.transform.current,
                DrawableKind::Sphere { radius, sectors, stacks },
            ),
        ),
        DrawCommand::Material(m) => if res.materials.contains(m) {
            with_state(r, StateView { material: MaterialKey::Custom(m), ..s })
        } else {
            spec_skip(r, idx)
        },
    }
}

/// Replays a run of commands, in order.
pub open spec fn spec_run(r: Replay, cmds: Seq<DrawCommand>, res: ResourcesView) -> Replay
    decreases cmds.len(),
{
    if cmds.len() == 0 {
        r
    } else {
        spec_step(
            spec_run(r, cmds.drop_last(), res),
            (cmds.len() - 1) as usize,
            cmds.last(),
            res,
        )
    }
}

/// A whole flush: replay every command from no open batch, then close the last batch.
pub open spec fn spec_flush(s: StateView, cmds: Seq<DrawCommand>, res: ResourcesView) -> Replay {
    let r = spec_run(Replay { state: s, plan: empty_plan() }, cmds, res);
    Replay { state: r.state, plan: spec_close(r.plan) }
}

struct Planner {
    open: bool,
    open_material: MaterialKey,
    open_transform: Vec<TransformOp>,
    open_shapes: Vec<RectShape>,
    done: Vec<Drawable>,
    skipped: Vec<usize>,
}

impl View for Planner {
    type V = PlanView;

    closed spec fn view(&self) -> PlanView {
        PlanView {
            open: if self.open {
                Some(
                    Batch {
                        material: self.open_material,
                        transform: self.open_transform@,
                        shapes: self.open_shapes@,
                    },
                )
            } else {
                None
            },
            done: self.done@.map_values(|d: Drawable| d@),
            skipped: self.skipped@,
        }
    }
}

/// Whether a handle is among the given ones.
fn contains_handle(handles: &Vec<u64>, h: u64) -> (r: bool)
    ensures
        r == handles@.contains(h),
{
    let mut i: usize = 0;
    while i < handles.len()
        invariant
            i <= handles@.len(),
            forall|k: int| 0 <= k < i ==> handles@[k] != h,
        decreases handles@.len() - i,
    {
        if handles[i] == h {
            return true;
        }
        i = i + 1;
    }
    false
}

impl Planner {
    fn new() -> (p: Planner)
        ensures
            p@ == empty_plan(),
    {
        let p = Planner {
            open: false,
            open_material: MaterialKey::default_key(),
            open_transform: Vec::new(),
            open_shapes: Vec::new(),
            done: Vec::new(),
            skipped: Vec::new(),
        };
        proof {
            assert(p@.done =~= seq![]);
            assert(p@.skipped =~= seq![]);
        }
        p
    }

    fn close(&mut self)
        ensures
            final(self)@ == spec_close(old(self)@),
    {
        if self.open {
            let mut shapes: Vec<RectShape> = Vec::new();
            std::mem::swap(&mut shapes, &mut self.open_shapes);
            let mut transform: Vec<TransformOp> = Vec::new();
            std::mem::swap(&mut transform, &mut self.open_transform);
            let d = Drawable {
                draw_index: self.done.len() as u64,
                material: self.open_material,
                transform,
                kind: DrawableKind::Batch,
                shapes,
            };
            self.done.push(d);
            self.open = false;
            proof {
                assert(self@.done =~= spec_close(old(self)@).done);
            }
        }
    }

    fn emit(&mut self, material: MaterialKey, transform: Vec<TransformOp>, kind: DrawableKind)
        ensures
            final(self)@ == spec_emit(old(self)@, material, transform@, kind),
    {
        self.close();
        let ghost closed = self@;
        let d = Drawable {
            draw_index: self.done.len() as u64,
            material,
            transform,
            kind,
            shapes: Vec::new(),
        };
        self.done.push(d);
        proof {
            assert(d@.shapes =~= seq![]);
            assert(self@.done =~= spec_emit(old(self)@, material, transform@, kind).done);
        }
    }

    fn add_shape(&mut self, state: &RenderState, color: Color, shape: RectShape)
        ensures
            final(self)@ == spec_add_shape(old(self)@, state@, color, shape),
    {
        let key = state.material_key.pass_key(color.is_transparent());
        let cur = state.transform.current();
        if self.open && self.open_material == key && same_ops(&self.open_transform, &cur) {
            self.open_shapes.push(shape);
        } else {
            self.close();
            self.open = true;
            self.open_material = key;
            self.open_transform = cur;
            let mut shapes: Vec<RectShape> = Vec::new();
            shapes.push(shape);
            self.open_shapes = shapes;
            proof {
                assert(self@.open->0.shapes =~= seq![shape]);
            }
        }
    }

    fn skip(&mut self, idx: usize)
        ensures
            final(self)@ == (PlanView {
                open: old(self)@.open,
                done: old(self)@.done,
                skipped: old(self)@.skipped.push(idx),
            }),
    {
        self.skipped.push(idx);
    }
}

/// Carries out one command of a replay.
fn apply_command(
    state: &mut RenderState,
    plan: &mut Planner,
    idx: usize,
    cmd: DrawCommand,
    res: &Resources,
)
    ensures
        (Replay { state: final(state)@, plan: final(plan)@ }) == spec_step(
            Replay { state: old(state)@, plan: old(plan)@ },
            idx,
            cmd,
            res@,
        ),
{
    match cmd {
        DrawCommand::Fill(c) => state.fill_color = Some(c),
        DrawCommand::NoFill => state.fill_color = None,
        DrawCommand::StrokeColor(c) => state.stroke_color = Some(c),
        DrawCommand::NoStroke => state.stroke_color = None,
        DrawCommand::StrokeWeight(w) => state.stroke_weight = w,
        DrawCommand::Rect { x, y, w, h, radii } => {
            if let Some(c) = state.fill_color {
                plan.add_shape(
                    state,
                    c,
                    RectShape { x, y, w, h, radii, color: c, mode: TessellationMode::Fill },
                );
            }
            if let Some(c) = state.stroke_color {
                let mode = TessellationMode::Stroke(state.stroke_weight);
                plan.add_shape(state, c, RectShape { x, y, w, h, radii, color: c, mode });
            }
        },
        DrawCommand::BackgroundColor(c) => {
            let key = MaterialKey::Color { transparent: c.is_transparent(), background_image: None };
            let identity: Vec<TransformOp> = Vec::new();
            plan.emit(key, identity, DrawableKind::Background { color: c, image: None });
            proof {
                assert(identity@ =~= seq![]);
            }
        },
        DrawCommand::BackgroundImage(img) => {
            if contains_handle(&res.images, img) {
                let key = MaterialKey::Color { transparent: false, background_image: Some(img) };
                let identity: Vec<TransformOp> = Vec::new();
                plan.emit(
                    key,
                    identity,
                    DrawableKind::Background { color: Color::white(), image: Some(img) },
                );
                proof {
                    assert(identity@ =~= seq![]);
                }
            } else {
                plan.skip(idx);
            }
        },
        DrawCommand::PushMatrix => state.transform.push(),
        DrawCommand::PopMatrix => state.transform.pop(),
        DrawCommand::ResetMatrix => state.transform.reset(),
        DrawCommand::Translate { x, y } => state.transform.translate(x, y),
        DrawCommand::Rotate { angle } => state.transform.rotate(angle),
        DrawCommand::Scale { x, y } => state.transform.scale(x, y),
        DrawCommand::ShearX { angle } => state.transform.shear_x(angle),
        DrawCommand::ShearY { angle } => state.transform.shear_y(angle),
        DrawCommand::Geometry(g) => {
            if contains_handle(&res.geometries, g) {
                let key = state.material_key.pass_key(false);
                plan.emit(key, state.transform.current(), DrawableKind::Geometry(g));
            } else {
                plan.skip(idx);
            }
        },
        DrawCommand::Box { width, height, depth } => {
            let key = state.material_key.pass_key(false);
            plan.emit(key, state.transform.current(), DrawableKind::Box { width, height, depth });
        },
        DrawCommand::Sphere { radius, sectors, stacks } => {
            let key = state.material_key.pass_key(false);
            plan.emit(
                key,
                state.transform.current(),
                DrawableKind::Sphere { radius, sectors, stacks },
            );
        },
        DrawCommand::Material(m) => {
            if contains_handle(&res.materials, m) {
                state.material_key = MaterialKey::Custom(m);
            } else {
                plan.skip(idx);
            }
        },
    }
}

/// Replays a frame's commands against the state and plans the frame's drawables.
pub fn flush_draw_commands(state: &mut RenderState, commands: &Vec<DrawCommand>, res: &Resources) -> (plan: FlushPlan)
    ensures
        final(state)@ == spec_flush(old(state)@, commands@, res@).state,
        plan@.drawables == spec_flush(old(state)@, commands@, res@).plan.done,
        plan@.skipped == spec_flush(old(state)@, commands@, res@).plan.skipped,
{
    let ghost start = Replay { state: state@, plan: empty_plan() };
    let mut planner = Planner::new();
    let mut i: usize = 0;
    while i < commands.len()
        invariant
            i <= commands@.len(),
            (Replay { state: state@, plan: planner@ }) == spec_run(
                start,
                commands@.take(i as int),
                res@,
            ),
        decreases commands@.len() - i,
    {
        apply_command(state, &mut planner, i, commands[i], res);
        proof {
            let next = commands@.take(i + 1);
            assert(next.drop_last() =~= commands@.take(i as int));
            assert(next.last() == commands@[i as int]);
        }
        i = i + 1;
    }
    proof {
        assert(commands@.take(i as int) =~= commands@);
    }
    planner.close();
    let Planner { done, skipped, .. } = planner;
    FlushPlan { drawables: done, skipped }
}

/// Every drawable of a plan carries its own position as draw index.
pub open spec fn indexed(p: PlanView) -> bool {
    forall|i: int| 0 <= i < p.done.len() ==> #[trigger] p.done[i].draw_index == i
}

proof fn lemma_close_indexed(p: PlanView)
    requires
        indexed(p),
    ensures
        indexed(spec_close(p)),
{
}

proof fn lemma_step_indexed(r: Replay, idx: usize, cmd: DrawCommand, res: ResourcesView)
    requires
        indexed(r.plan),
    ensures
        indexed(spec_step(r, idx, cmd, res).plan),
{
    lemma_close_indexed(r.plan);
    match cmd {
        DrawCommand::Rect { x, y, w, h, radii } => {
            let s = r.state;
            let p1 = match s.fill {
                Some(c) => spec_add_shape(
                    r.plan,
                    s,
                    c,
                    RectShape { x, y, w, h, radii, color: c, mode: TessellationMode::Fill },
                ),
                None => r.plan,
            };
            assert(indexed(p1));
            lemma_close_indexed(p1);
        },
        _ => {},
    }
}

proof fn lemma_run_indexed(r: Replay, cmds: Seq<DrawCommand>, res: ResourcesView)
    requires
        indexed(r.plan),
    ensures
        indexed(spec_run(r, cmds, res).plan),
    decreases cmds.len(),
{
    if cmds.len() > 0 {
        lemma_run_indexed(r, cmds.drop_last(), res);
        lemma_step_indexed(
            spec_run(r, cmds.drop_last(), res),
            (cmds.len() - 1) as usize,
            cmds.last(),
            res,
        );
    }
}

/// Draw order is kept whatever the batching: the drawables of a flush come in the order of
/// the commands that made them, and each one's draw index is its position, so a later
/// drawable always has a larger index (and a depth offset nearer the viewer) than an
/// earlier one.
pub proof fn lemma_draw_order(s: StateView, cmds: Seq<DrawCommand>, res: ResourcesView)
    ensures
        forall|i: int, j: int|
            0 <= i < j < spec_flush(s, cmds, res).plan.done.len() ==> spec_flush(
                s,
                cmds,
                res,
            ).plan.done[i].draw_index < spec_flush(s, cmds, res).plan.done[j].draw_index,
{
    let r = spec_run(Replay { state: s, plan: empty_plan() }, cmds, res);
    lemma_run_indexed(Replay { state: s, plan: empty_plan() }, cmds, res);
    lemma_close_indexed(r.plan);
}

pub open spec fn is_rect(cmd: DrawCommand) -> bool {
    cmd is Rect
}

/// After a run of rectangles filled with `c` and not stroked, one batch is open and nothing
/// else happened.
proof fn lemma_rects_share_batch(s: StateView, c: Color, cmds: Seq<DrawCommand>, res: ResourcesView)
    requires
        s.fill == Some(c),
        s.stroke is None,
        cmds.len() > 0,
        forall|i: int| 0 <= i < cmds.len() ==> is_rect(#[trigger] cmds[i]),
    ensures
        ({
            let r = spec_run(Replay { state: s, plan: empty_plan() }, cmds, res);
            &&& r.state == s
            &&& r.plan.done.len() == 0
            &&& r.plan.skipped.len() == 0
            &&& r.plan.open is Some
            &&& r.plan.open->0.material == spec_pass_key(s.material, spec_is_transparent(c))
            &&& r.plan.open->0.transform == s.transform.current
            &&& r.plan.open->0.shapes.len() == cmds.len()
        }),
    decreases cmds.len(),
{
    let init = cmds.drop_last();
    assert(is_rect(cmds[cmds.len() - 1]));
    if init.len() > 0 {
        assert forall|i: int| 0 <= i < init.len() implies is_rect(#[trigger] init[i]) by {
            assert(init[i] == cmds[i]);
        }
        lemma_rects_share_batch(s, c, init, res);
    } else {
        assert(spec_run(Replay { state: s, plan: empty_plan() }, init, res) == Replay {
            state: s,
            plan: empty_plan(),
        });
    }
}

/// Consecutive rectangles with one fill, no stroke and no change of transform or material
/// between them make exactly one drawable. Two rectangles separated by a change of fill
/// make two drawables when the paint material is a color material and the two fills differ
/// in translucency; colors that share it share a material key, and their shapes stay in one
/// batch.
pub proof fn lemma_batch_minimality(
    s: StateView,
    c: Color,
    cmds: Seq<DrawCommand>,
    res: ResourcesView,
    a: DrawCommand,
    c2: Color,
    b: DrawCommand,
)
    requires
        s.fill == Some(c),
        s.stroke is None,
    ensures
        cmds.len() > 0 && (forall|i: int| 0 <= i < cmds.len() ==> is_rect(#[trigger] cmds[i]))
            ==> spec_flush(s, cmds, res).plan.done.len() == 1,
        is_rect(a) && is_rect(b) && s.material is Color && spec_is_transparent(c)
            != spec_is_transparent(c2) ==> spec_flush(
            s,
            seq![a, DrawCommand::Fill(c2), b],
            res,
        ).plan.done.len() == 2,
{
    if cmds.len() > 0 && (forall|i: int| 0 <= i < cmds.len() ==> is_rect(#[trigger] cmds[i])) {
        lemma_rects_share_batch(s, c, cmds, res);
    }
    if is_rect(a) && is_rect(b) && s.material is Color && spec_is_transparent(c)
        != spec_is_transparent(c2) {
        let three = seq![a, DrawCommand::Fill(c2), b];
        let start = Replay { state: s, plan: empty_plan() };
        assert(three.drop_last().drop_last().drop_last() =~= Seq::<DrawCommand>::empty());
        assert(three.drop_last().drop_last() =~= seq![a]);
        assert(three.drop_last() =~= seq![a, DrawCommand::Fill(c2)]);
        let r1 = spec_run(start, seq![a], res);
        assert(seq![a].drop_last() =~= Seq::<DrawCommand>::empty());
        assert(spec_run(start, Seq::<DrawCommand>::empty(), res) == start);
        assert(seq![a].last() == a);
        assert(r1 == spec_step(start, 0, a, res));
        assert(r1.plan.done.len() == 0 && r1.plan.open is Some);
        assert(r1.state == s);
        let r2 = spec_run(start, seq![a, DrawCommand::Fill(c2)], res);
        assert(seq![a, DrawCommand::Fill(c2)].last() == DrawCommand::Fill(c2));
        assert(r2 == spec_step(r1, 1, DrawCommand::Fill(c2), res));
        assert(r2.plan.open->0.material != spec_pass_key(s.material, spec_is_transparent(c2)));
        let r3 = spec_run(start, three, res);
        assert(three.last() == b);
        assert(r3 == spec_step(r2, 2, b, res));
        assert(r3.plan.done.len() == 1);
        assert(r3.plan.open is Some);
    }
}

/// The shapes of a run of drawables, drawable after drawable.
pub open spec fn flat_shapes(done: Seq<DrawableView>) -> Seq<RectShape>
    decreases done.len(),
{
    if done.len() == 0 {
        seq![]
    } else {
        flat_shapes(done.drop_last()) + done.last().shapes
    }
}

/// The shapes of a plan in draw order, those of the open batch last.
pub open spec fn all_shapes(p: PlanView) -> Seq<RectShape> {
    flat_shapes(p.done) + match p.open {
        Some(b) => b.shapes,
        None => seq![],
    }
}

/// The shape passes that one command paints: for a rectangle its fill, then its stroke.
pub open spec fn step_shapes(s: StateView, cmd: DrawCommand) -> Seq<RectShape> {
    match cmd {
        DrawCommand::Rect { x, y, w, h, radii } => {
            let fill = match s.fill {
                Some(c) => seq![RectShape { x, y, w, h, radii, color: c, mode: TessellationMode::Fill }],
                None => seq![],
            };
            let stroke = match s.stroke {
                Some(c) => seq![
                    RectShape { x, y, w, h, radii, color: c, mode: TessellationMode::Stroke(s.weight) },
                ],
                None => seq![],
            };
            fill + stroke
        },
        _ => seq![],
    }
}

/// The shape passes of a run of commands, in command order.
pub open spec fn run_shapes(r: Replay, cmds: Seq<DrawCommand>, res: ResourcesView) -> Seq<RectShape>
    decreases cmds.len(),
{
    if cmds.len() == 0 {
        seq![]
    } else {
        run_shapes(r, cmds.drop_last(), res) + step_shapes(
            spec_run(r, cmds.drop_last(), res).state,
            cmds.last(),
        )
    }
}

proof fn lemma_close_shapes(p: PlanView)
    ensures
        all_shapes(spec_close(p)) == all_shapes(p),
{
    if p.open is Some {
        let c = spec_close(p);
        assert(c.done.drop_last() =~= p.done);
        assert(all_shapes(c) =~= all_shapes(p));
    }
}

proof fn lemma_emit_shapes(p: PlanView, m: MaterialKey, t: Seq<TransformOp>, k: DrawableKind)
    ensures
        all_shapes(spec_emit(p, m, t, k)) == all_shapes(p),
{
    lemma_close_shapes(p);
    let c = spec_close(p);
    let e = spec_emit(p, m, t, k);
    assert(e.done.drop_last() =~= c.done);
    assert(all_shapes(e) =~= all_shapes(c));
}

proof fn lemma_add_shape_shapes(p: PlanView, st: StateView, color: Color, shape: RectShape)
    ensures
        all_shapes(spec_add_shape(p, st, color, shape)) == all_shapes(p) + seq![shape],
{
    lemma_close_shapes(p);
    assert(all_shapes(spec_add_shape(p, st, color, shape)) =~= all_shapes(p) + seq![shape]);
}

proof fn lemma_step_shapes(r: Replay, idx: usize, cmd: DrawCommand, res: ResourcesView)
    ensures
        all_shapes(spec_step(r, idx, cmd, res).plan) == all_shapes(r.plan) + step_shapes(
            r.state,
            cmd,
        ),
{
    let s = r.state;
    match cmd {
        DrawCommand::Rect { x, y, w, h, radii } => {
            let p1 = match s.fill {
                Some(c) => spec_add_shape(
                    r.plan,
                    s,
                    c,
                    RectShape { x, y, w, h, radii, color: c, mode: TessellationMode::Fill },
                ),
                None => r.plan,
            };
            match s.fill {
                Some(c) => lemma_add_shape_shapes(
                    r.plan,
                    s,
                    c,
                    RectShape { x, y, w, h, radii, color: c, mode: TessellationMode::Fill },
                ),
                None => {},
            }
            match s.stroke {
                Some(c) => lemma_add_shape_shapes(
                    p1,
                    s,
                    c,
                    RectShape { x, y, w, h, radii, color: c, mode: TessellationMode::Stroke(s.weight) },
                ),
                None => {},
            }
            assert(all_shapes(spec_step(r, idx, cmd, res).plan) =~= all_shapes(r.plan)
                + step_shapes(s, cmd));
        },
        DrawCommand::BackgroundColor(c) => {
            lemma_emit_shapes(
                r.plan,
                MaterialKey::Color { transparent: spec_is_transparent(c), background_image: None },
                seq![],
                DrawableKind::Background { color: c, image: None },
            );
            assert(all_shapes(r.plan) + seq![] =~= all_shapes(r.plan));
        },
        DrawCommand::BackgroundImage(img) => {
            lemma_emit_shapes(
                r.plan,
                MaterialKey::Color { transparent: false, background_image: Some(img) },
                seq![],
                DrawableKind::Background { color: white(), image: Some(img) },
            );
            assert(all_shapes(r.plan) + seq![] =~= all_shapes(r.plan));
        },
        DrawCommand::Geometry(g) => {
            lemma_emit_shapes(r.plan, mesh_key(s), s.transform.current, DrawableKind::Geometry(g));
            assert(all_shapes(r.plan) + seq![] =~= all_shapes(r.plan));
        },
        DrawCommand::Box { width, height, depth } => {
            lemma_emit_shapes(
                r.plan,
                mesh_key(s),
                s.transform.current,
                DrawableKind::Box { width, height, depth },
            );
            assert(all_shapes(r.plan) + seq![] =~= all_shapes(r.plan));
        },
        DrawCommand::Sphere { radius, sectors, stacks } => {
            lemma_emit_shapes(
                r.plan,
                mesh_key(s),
                s.transform.current,
                DrawableKind::Sphere { radius, sectors, stacks },
            );
            assert(all_shapes(r.plan) + seq![] =~= all_shapes(r.plan));
        },
        _ => {
            assert(all_shapes(r.plan) + seq![] =~= all_shapes(r.plan));
        },
    }
}

proof fn lemma_run_shapes(r: Replay, cmds: Seq<DrawCommand>, res: ResourcesView)
    ensures
        all_shapes(spec_run(r, cmds, res).plan) == all_shapes(r.plan) + run_shapes(r, cmds, res),
    decreases cmds.len(),
{
    if cmds.len() == 0 {
        assert(all_shapes(r.plan) + seq![] =~= all_shapes(r.plan));
    } else {
        let init = cmds.drop_last();
        lemma_run_shapes(r, init, res);
        lemma_step_shapes(spec_run(r, init, res), (cmds.len() - 1) as usize, cmds.last(), res);
        assert(all_shapes(spec_run(r, cmds, res).plan) =~= all_shapes(r.plan) + run_shapes(
            r,
            cmds,
            res,
        ));
    }
}

/// Draw order is kept within and across batches: the shapes of a flush's drawables, taken
/// drawable after drawable, are the shape passes of the commands in the order recorded.
/// Together with draw indices that grow along the plan, a shape from a later command is
/// never drawn beneath one from an earlier command.
pub proof fn lemma_shapes_in_command_order(s: StateView, cmds: Seq<DrawCommand>, res: ResourcesView)
    ensures
        flat_shapes(spec_flush(s, cmds, res).plan.done) == run_shapes(
            Replay { state: s, plan: empty_plan() },
            cmds,
            res,
        ),
{
    let start = Replay { state: s, plan: empty_plan() };
    lemma_run_shapes(start, cmds, res);
    let r = spec_run(start, cmds, res);
    lemma_close_shapes(r.plan);
    let c = spec_close(r.plan);
    assert(flat_shapes(empty_plan().done) == Seq::<RectShape>::empty());
    assert(all_shapes(empty_plan()) =~= Seq::<RectShape>::empty());
    assert(all_shapes(c) =~= flat_shapes(c.done));
}

/// Saving the transform, translating, drawing a rectangle, restoring and drawing again
/// gives two drawables: the first under the current transform followed by the translation,
/// the second under the current transform; the transform is restored afterwards. This holds
/// for a filled, unstroked paint state from the start of a flush.
pub proof fn lemma_push_translate_pop(
    s: StateView,
    c: Color,
    x: Scalar,
    y: Scalar,
    a: DrawCommand,
    b: DrawCommand,
    res: ResourcesView,
)
    requires
        s.fill == Some(c),
        s.stroke is None,
        is_rect(a),
        is_rect(b),
    ensures
        ({
            let f = spec_flush(
                s,
                seq![
                    DrawCommand::PushMatrix,
                    DrawCommand::Translate { x, y },
                    a,
                    DrawCommand::PopMatrix,
                    b,
                ],
                res,
            );
            &&& f.plan.done.len() == 2
            &&& f.plan.done[0].transform == s.transform.current.push(translation(x, y))
            &&& f.plan.done[1].transform == s.transform.current
            &&& f.plan.done[0].shapes.len() == 1
            &&& f.plan.done[1].shapes.len() == 1
            &&& f.state.transform == s.transform
        }),
{
    let start = Replay { state: s, plan: empty_plan() };
    let c1 = seq![DrawCommand::PushMatrix];
    let c2 = seq![DrawCommand::PushMatrix, DrawCommand::Translate { x, y }];
    let c3 = seq![DrawCommand::PushMatrix, DrawCommand::Translate { x, y }, a];
    let c4 = seq![DrawCommand::PushMatrix, DrawCommand::Translate { x, y }, a, DrawCommand::PopMatrix];
    let c5 = seq![
        DrawCommand::PushMatrix,
        DrawCommand::Translate { x, y },
        a,
        DrawCommand::PopMatrix,
        b,
    ];
    assert(c1.drop_last() =~= Seq::<DrawCommand>::empty());
    assert(c2.drop_last() =~= c1);
    assert(c3.drop_last() =~= c2);
    assert(c4.drop_last() =~= c3);
    assert(c5.drop_last() =~= c4);
    assert(spec_run(start, Seq::<DrawCommand>::empty(), res) == start);
    let r1 = spec_run(start, c1, res);
    assert(r1 == spec_step(start, 0, DrawCommand::PushMatrix, res));
    let r2 = spec_run(start, c2, res);
    assert(r2 == spec_step(r1, 1, DrawCommand::Translate { x, y }, res));
    let r3 = spec_run(start, c3, res);
    assert(r3 == spec_step(r2, 2, a, res));
    assert(r3.plan.done.len() == 0 && r3.plan.open is Some);
    let r4 = spec_run(start, c4, res);
    assert(r4 == spec_step(r3, 3, DrawCommand::PopMatrix, res));
    assert(r4.state.transform.saved.push(s.transform.current).drop_last() =~= s.transform.saved);
    assert(s.transform.saved.push(s.transform.current).drop_last() =~= s.transform.saved);
    assert(r4.state.transform == s.transform);
    let r5 = spec_run(start, c5, res);
    assert(r5 == spec_step(r4, 4, b, res));
    assert(r3.plan.open->0.transform.len() == s.transform.current.len() + 1);
    assert(r5.plan.done.len() == 1);
    assert(r5.plan.open is Some);
}

} // verus!
