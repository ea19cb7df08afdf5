//! Edit ▸ Puppet Warp: pins on a mesh over the layer's ink.
//!
//! The host lays a mesh over every pixel of the active layer that holds ink. A
//! click on the mesh adds a pin at the nearest vertex; dragging a pin moves it
//! and the mesh follows; a secondary click removes a pin. Where the vertices go
//! is the host's to compute: the dialog says when the pose is out of date, and
//! is handed the new one.
//!
//! Enter commits the mesh's deformed vertices. Escape writes nothing.

use super::chrome;
use super::chrome::{DialogButton, DialogKeys, DialogOutcome};
use crate::geometry;
use crate::geometry::Point;
use crate::ieee::Real32;
use crate::rounding;
use crate::strings;
use crate::text;
use vstd::prelude::*;

verus! {

/// How the mesh follows its pins.
#[derive(Clone, Copy, PartialEq, Eq, Structural, Hash, Debug)]
pub enum PuppetMode {
    /// As rigid as possible.
    Rigid,
    /// By linear blend.
    Blend,
}

/// How fine the mesh is.
#[derive(Clone, Copy, PartialEq, Eq, Structural, Hash, Debug)]
pub enum MeshDensity {
    Coarse,
    Normal,
    Fine,
}

/// A vertex held in place.
#[derive(Clone, Copy, PartialEq, Structural, Debug)]
pub struct Pin {
    pub vertex: usize,
    pub at: Point,
}

/// A mesh at rest: where its vertices are, and how far neighbours are apart.
#[derive(PartialEq, Debug)]
pub struct RestMesh {
    pub rest: Vec<Point>,
    pub spacing: Real32,
}

/// What a [`RestMesh`] stands for.
#[verifier::ext_equal]
pub struct MeshModel {
    pub rest: Seq<Point>,
    pub spacing: Real32,
}

impl View for RestMesh {
    type V = MeshModel;

    open spec fn view(&self) -> MeshModel {
        MeshModel { rest: self.rest@, spacing: self.spacing }
    }
}

/// A confirmed Puppet Warp: the mesh at rest and where its vertices went.
#[derive(PartialEq, Debug)]
pub struct PuppetWarpSpec {
    pub rest: Vec<Point>,
    pub deformed: Vec<Point>,
}

/// What a [`PuppetWarpSpec`] stands for.
#[verifier::ext_equal]
pub struct PuppetRequest {
    pub rest: Seq<Point>,
    pub deformed: Seq<Point>,
}

impl View for PuppetWarpSpec {
    type V = PuppetRequest;

    open spec fn view(&self) -> PuppetRequest {
        PuppetRequest { rest: self.rest@, deformed: self.deformed@ }
    }
}

/// Every vertex where the other has it.
pub open spec fn same_points(a: Seq<Point>, b: Seq<Point>) -> bool {
    a.len() == b.len() && forall|i: int| 0 <= i < a.len() ==> (#[trigger] a[i]).same(b[i])
}

impl PuppetWarpSpec {
    /// Whether no vertex moved.
    pub fn is_identity(&self) -> (r: bool)
        ensures
            r == same_points(self@.deformed, self@.rest),
    {
        if self.deformed.len() != self.rest.len() {
            return false;
        }
        let mut i: usize = 0;
        while i < self.deformed.len()
            invariant
                i <= self.deformed@.len(),
                self.deformed@.len() == self.rest@.len(),
                forall|k: int| 0 <= k < i ==> (#[trigger] self.deformed@[k]).same(self.rest@[k]),
            decreases self.deformed@.len() - i,
        {
            if !self.deformed[i].same_as(self.rest[i]) {
                return false;
            }
            i = i + 1;
        }
        true
    }
}

/// An opacity as a byte of coverage.
pub open spec fn coverage(alpha: Real32) -> u8 {
    rounding::truncated(
        alpha.clamped(Real32 { bits: 0 }, Real32 { bits: 0x3f80_0000 }).times_spec(
            Real32 { bits: 0x437f_0000 },
        ).rounded_spec().number(),
        255,
    ) as u8
}

/// The layer's coverage, one byte per pixel, from the pixels' opacities.
pub fn ink(alphas: &Vec<Real32>) -> (r: Vec<u8>)
    ensures
        r@ == alphas@.map_values(|a: Real32| coverage(a)),
{
    let mut out: Vec<u8> = Vec::new();
    let mut i: usize = 0;
    while i < alphas.len()
        invariant
            i <= alphas@.len(),
            out@ == alphas@.take(i as int).map_values(|a: Real32| coverage(a)),
        decreases alphas@.len() - i,
    {
        out.push(
            alphas[i].clamp(Real32 { bits: 0 }, Real32 { bits: 0x3f80_0000 }).times(
                Real32 { bits: 0x437f_0000 },
            ).rounded().to_u8(),
        );
        i = i + 1;
        assert(out@ == alphas@.take(i as int).map_values(|a: Real32| coverage(a)));
    }
    assert(alphas@.take(i as int) == alphas@);
    out
}

/// Where the pins are.
pub open spec fn held_at(pins: Seq<Pin>) -> Seq<Point> {
    pins.map_values(|p: Pin| p.at)
}

/// What a [`PuppetWarpDialog`] stands for.
#[verifier::ext_equal]
pub struct PuppetModel {
    pub density: MeshDensity,
    pub mode: PuppetMode,
    /// The mesh over the layer's ink, where it has any.
    pub mesh: Option<MeshModel>,
    pub pins: Seq<Pin>,
    /// Where the vertices are now.
    pub deformed: Seq<Point>,
    pub show_mesh: bool,
    /// The pin being dragged.
    pub dragging: Option<int>,
    /// The pose is not that of the pins and the mode.
    pub stale: bool,
    /// The preview is out of date.
    pub dirty: bool,
}

impl PuppetModel {
    /// A mesh laid down: no pins, at rest.
    pub open spec fn meshed(self, mesh: Option<MeshModel>) -> PuppetModel {
        PuppetModel {
            mesh,
            pins: Seq::empty(),
            deformed: match mesh {
                Some(m) => m.rest,
                None => Seq::empty(),
            },
            dragging: None,
            stale: false,
            dirty: true,
            ..self
        }
    }

    /// The dialog as it opens.
    pub open spec fn opened(mesh: Option<MeshModel>) -> PuppetModel {
        PuppetModel {
            density: MeshDensity::Normal,
            mode: PuppetMode::Rigid,
            mesh: None,
            pins: Seq::empty(),
            deformed: Seq::empty(),
            show_mesh: true,
            dragging: None,
            stale: false,
            dirty: true,
        }.meshed(mesh)
    }

    /// The pose to be computed anew.
    pub open spec fn unposed(self) -> PuppetModel {
        PuppetModel { stale: self.mesh is Some, dirty: true, ..self }
    }

    /// Another density. The mesh is rebuilt, so the pins go.
    pub open spec fn with_density(self, density: MeshDensity, mesh: Option<MeshModel>) -> PuppetModel {
        if density == self.density {
            self
        } else {
            (PuppetModel { density, ..self }).meshed(mesh)
        }
    }

    pub open spec fn pinned(self, vertex: int) -> bool {
        exists|i: int| 0 <= i < self.pins.len() && (#[trigger] self.pins[i]).vertex == vertex
    }

    /// The vertex a pin at a point would hold: the nearest one in the current
    /// pose, unless the point is off the mesh or the vertex is pinned.
    pub open spec fn pinnable(self, p: Point) -> Option<int> {
        match self.mesh {
            Some(mesh) => match geometry::nearest_within(self.deformed, p, mesh.spacing) {
                Some(vertex) => if self.pinned(vertex) {
                    None
                } else {
                    Some(vertex)
                },
                None => None,
            },
            None => None,
        }
    }

    /// A pin added.
    pub open spec fn with_pin(self, p: Point) -> PuppetModel {
        match self.pinnable(p) {
            Some(vertex) => PuppetModel {
                pins: self.pins.push(Pin { vertex: vertex as usize, at: self.deformed[vertex] }),
                dirty: true,
                ..self
            },
            None => self,
        }
    }

    /// A pin moved; one that is not there changes nothing.
    pub open spec fn with_moved(self, index: int, p: Point) -> PuppetModel {
        if 0 <= index < self.pins.len() {
            (PuppetModel {
                pins: self.pins.update(index, Pin { at: p, ..self.pins[index] }),
                ..self
            }).unposed()
        } else {
            self
        }
    }

    /// A pin removed; one that is not there changes nothing.
    pub open spec fn without_pin(self, index: int) -> PuppetModel {
        if 0 <= index < self.pins.len() {
            (PuppetModel { pins: self.pins.remove(index), ..self }).unposed()
        } else {
            self
        }
    }

    /// Every pin cleared.
    pub open spec fn unpinned(self) -> PuppetModel {
        (PuppetModel { pins: Seq::empty(), ..self }).unposed()
    }

    /// The pin within a radius of a point, nearest first.
    pub open spec fn pin_near(self, p: Point, radius: Real32) -> Option<int> {
        geometry::nearest_within(held_at(self.pins), p, radius)
    }

    /// A press on the canvas: it takes the pin that is near, or places one.
    pub open spec fn pressed(self, p: Point, pick: Real32) -> PuppetModel {
        match self.pin_near(p, pick) {
            Some(i) => PuppetModel { dragging: Some(i), ..self },
            None => PuppetModel {
                dragging: if self.pinnable(p) is Some {
                    Some(self.pins.len() as int)
                } else {
                    None
                },
                ..self.with_pin(p)
            },
        }
    }

    /// Whether a pose has a place for every vertex of the mesh.
    pub open spec fn poses(self, deformed: Seq<Point>) -> bool {
        self.mesh matches Some(mesh) && deformed.len() == mesh.rest.len()
    }

    /// The pose of the pins and the mode handed in; one that is not of the mesh
    /// changes nothing.
    pub open spec fn posed(self, deformed: Seq<Point>) -> PuppetModel {
        if self.poses(deformed) {
            PuppetModel { deformed, stale: false, ..self }
        } else {
            self
        }
    }

    /// What a confirmation commits; nothing when the layer has no ink to lay a
    /// mesh on, or while the pose is not that of the pins and the mode.
    pub open spec fn confirmation(self) -> Option<PuppetRequest> {
        match self.mesh {
            Some(mesh) if !self.stale => Some(
                PuppetRequest { rest: mesh.rest, deformed: self.deformed },
            ),
            _ => None,
        }
    }

    /// Every vertex of the mesh has a place.
    pub open spec fn complete(self) -> bool {
        self.mesh is Some ==> self.poses(self.deformed)
    }

    /// No vertex is pinned twice.
    pub open spec fn pins_differ(self) -> bool {
        forall|i: int, j: int|
            0 <= i < j < self.pins.len() ==> (#[trigger] self.pins[i]).vertex != (
            #[trigger] self.pins[j]).vertex
    }
}

/// Whatever is done to the pins, no vertex is pinned twice.
pub proof fn no_vertex_is_pinned_twice(
    m: PuppetModel,
    p: Point,
    index: int,
    density: MeshDensity,
    mesh: Option<MeshModel>,
)
    requires
        m.pins_differ(),
        m.deformed.len() <= usize::MAX,
    ensures
        PuppetModel::opened(mesh).pins_differ(),
        m.with_pin(p).pins_differ(),
        m.with_moved(index, p).pins_differ(),
        m.without_pin(index).pins_differ(),
        m.unpinned().pins_differ(),
        m.with_density(density, mesh).pins_differ(),
{
    match m.mesh {
        Some(laid) => {
            geometry::the_nearest_handle_is_found(m.deformed, p, laid.spacing);
        },
        None => {},
    }
    assert forall|i: int, j: int| 0 <= i < j < m.with_pin(p).pins.len() implies (
    #[trigger] m.with_pin(p).pins[i]).vertex != (#[trigger] m.with_pin(p).pins[j]).vertex by {
        if j == m.pins.len() {
            assert(m.pins[i] == m.with_pin(p).pins[i]);
        } else {
            assert(m.pins[i].vertex != m.pins[j].vertex);
        }
    }
}

/// Whatever is done, every vertex of the mesh has a place, so what is committed
/// has one for each; and nothing is committed while a pose is owed.
pub proof fn a_committed_warp_places_every_vertex(
    m: PuppetModel,
    p: Point,
    pick: Real32,
    index: int,
    density: MeshDensity,
    mode: PuppetMode,
    mesh: Option<MeshModel>,
    pose: Seq<Point>,
)
    requires
        m.complete(),
    ensures
        PuppetModel::opened(mesh).complete(),
        m.pressed(p, pick).complete(),
        m.with_pin(p).complete(),
        m.with_moved(index, p).complete(),
        m.without_pin(index).complete(),
        m.unpinned().complete(),
        m.with_density(density, mesh).complete(),
        (PuppetModel { mode, ..m }).unposed().complete(),
        m.posed(pose).complete(),
        m.confirmation() matches Some(request) ==> request.deformed.len() == request.rest.len()
            && !m.stale,
        m.stale ==> m.confirmation() is None,
        m.poses(pose) ==> m.posed(pose).confirmation() == Some(
            PuppetRequest { rest: m.mesh->0.rest, deformed: pose },
        ),
{
}

/// Placing a pin moves nothing: the pose stays what it was.
pub proof fn placing_a_pin_moves_nothing(m: PuppetModel, p: Point)
    ensures
        m.with_pin(p).deformed == m.deformed,
        m.with_pin(p).stale == m.stale,
        m.with_pin(p).confirmation() == m.confirmation(),
{
}

/// Edit ▸ Puppet Warp.
#[derive(Debug)]
pub struct PuppetWarpDialog {
    density: MeshDensity,
    mode: PuppetMode,
    mesh: Option<RestMesh>,
    pins: Vec<Pin>,
    deformed: Vec<Point>,
    show_mesh: bool,
    dragging: Option<usize>,
    stale: bool,
    dirty: bool,
}

impl View for PuppetWarpDialog {
    type V = PuppetModel;

    closed spec fn view(&self) -> PuppetModel {
        PuppetModel {
            density: self.density,
            mode: self.mode,
            mesh: match self.mesh {
                Some(mesh) => Some(mesh@),
                None => None,
            },
            pins: self.pins@,
            deformed: self.deformed@,
            show_mesh: self.show_mesh,
            dragging: match self.dragging {
                Some(i) => Some(i as int),
                None => None,
            },
            stale: self.stale,
            dirty: self.dirty,
        }
    }
}

fn copied_points(points: &Vec<Point>) -> (r: Vec<Point>)
    ensures
        r@ == points@,
{
    let mut out: Vec<Point> = Vec::new();
    let mut i: usize = 0;
    while i < points.len()
        invariant
            i <= points@.len(),
            out@ == points@.take(i as int),
        decreases points@.len() - i,
    {
        out.push(points[i]);
        i = i + 1;
    }
    assert(points@.take(i as int) == points@);
    out
}

impl PuppetWarpDialog {
    /// Over the mesh the host lays on the layer's ink; `None` where the layer
    /// has none.
    pub fn new(mesh: Option<RestMesh>) -> (r: Self)
        ensures
            r@ == PuppetModel::opened(chrome::request_view(mesh)),
    {
        let mut dialog = PuppetWarpDialog {
            density: MeshDensity::Normal,
            mode: PuppetMode::Rigid,
            mesh: None,
            pins: Vec::new(),
            deformed: Vec::new(),
            show_mesh: true,
            dragging: None,
            stale: false,
            dirty: true,
        };
        dialog.rebuild_mesh(mesh);
        dialog
    }

    fn rebuild_mesh(&mut self, mesh: Option<RestMesh>)
        ensures
            final(self)@ == old(self)@.meshed(chrome::request_view(mesh)),
    {
        self.deformed = match &mesh {
            Some(m) => copied_points(&m.rest),
            None => Vec::new(),
        };
        self.mesh = mesh;
        self.pins = Vec::new();
        self.dragging = None;
        self.stale = false;
        self.dirty = true;
    }

    fn redeform(&mut self)
        ensures
            final(self)@ == old(self)@.unposed(),
    {
        self.stale = self.mesh.is_some();
        self.dirty = true;
    }

    /// Whether the pose must be computed anew, for the pins and the mode.
    pub fn needs_pose(&self) -> (r: bool)
        ensures
            r == self@.stale,
    {
        self.stale
    }

    /// Hand in the pose of the pins and the mode, a place for every vertex of
    /// the mesh. Refused (returns `false`) where it has more places or fewer.
    pub fn set_pose(&mut self, deformed: Vec<Point>) -> (r: bool)
        ensures
            final(self)@ == old(self)@.posed(deformed@),
            r == old(self)@.poses(deformed@),
    {
        let fits = match &self.mesh {
            Some(mesh) => deformed.len() == mesh.rest.len(),
            None => false,
        };
        if fits {
            self.deformed = deformed;
            self.stale = false;
        }
        fits
    }

    /// Whether the preview is out of date. The host that renders it again says
    /// so with [`PuppetWarpDialog::preview_rendered`].
    pub fn is_dirty(&self) -> (r: bool)
        ensures
            r == self@.dirty,
    {
        self.dirty
    }

    pub fn preview_rendered(&mut self)
        ensures
            final(self)@ == (PuppetModel { dirty: false, ..old(self)@ }),
    {
        self.dirty = false;
    }

    pub fn mesh(&self) -> (r: Option<&RestMesh>)
        ensures
            match r {
                Some(mesh) => self@.mesh == Some(mesh@),
                None => self@.mesh is None,
            },
    {
        match &self.mesh {
            Some(mesh) => Some(mesh),
            None => None,
        }
    }

    pub fn pins(&self) -> (r: &Vec<Pin>)
        ensures
            r@ == self@.pins,
    {
        &self.pins
    }

    /// Where the vertices are now.
    pub fn deformed(&self) -> (r: &Vec<Point>)
        ensures
            r@ == self@.deformed,
    {
        &self.deformed
    }

    pub fn mode(&self) -> (r: PuppetMode)
        ensures
            r == self@.mode,
    {
        self.mode
    }

    pub fn density(&self) -> (r: MeshDensity)
        ensures
            r == self@.density,
    {
        self.density
    }

    pub fn shows_mesh(&self) -> (r: bool)
        ensures
            r == self@.show_mesh,
    {
        self.show_mesh
    }

    pub fn set_show_mesh(&mut self, on: bool)
        ensures
            final(self)@ == (PuppetModel { show_mesh: on, ..old(self)@ }),
    {
        self.show_mesh = on;
    }

    pub fn set_mode(&mut self, mode: PuppetMode)
        ensures
            final(self)@ == (PuppetModel { mode, ..old(self)@ }).unposed(),
    {
        self.mode = mode;
        self.redeform();
    }

    /// Change the mesh density; `mesh` is the mesh of that density. The mesh is
    /// rebuilt, so the pins go.
    pub fn set_density(&mut self, density: MeshDensity, mesh: Option<RestMesh>)
        ensures
            final(self)@ == old(self)@.with_density(density, chrome::request_view(mesh)),
    {
        if density != self.density {
            self.density = density;
            self.rebuild_mesh(mesh);
        }
    }

    fn is_pinned(&self, vertex: usize) -> (r: bool)
        ensures
            r == self@.pinned(vertex as int),
    {
        let mut i: usize = 0;
        while i < self.pins.len()
            invariant
                i <= self.pins@.len(),
                forall|k: int| 0 <= k < i ==> (#[trigger] self@.pins[k]).vertex != vertex,
            decreases self.pins@.len() - i,
        {
            if self.pins[i].vertex == vertex {
                assert(self@.pins[i as int].vertex == vertex);
                return true;
            }
            i = i + 1;
        }
        false
    }

    /// Add a pin at document point `p`, holding the vertex nearest it in the
    /// current pose. Refused (returns `None`) off the mesh or on a vertex
    /// already pinned.
    pub fn add_pin(&mut self, p: Point) -> (r: Option<usize>)
        ensures
            final(self)@ == old(self)@.with_pin(p),
            match r {
                Some(i) => old(self)@.pinnable(p) is Some && i == old(self)@.pins.len(),
                None => old(self)@.pinnable(p) is None,
            },
    {
        let spacing = match &self.mesh {
            Some(mesh) => mesh.spacing,
            None => {
                return None;
            },
        };
        let vertex = match geometry::find_nearest(&self.deformed, p, spacing) {
            Some(vertex) => vertex,
            None => {
                return None;
            },
        };
        if self.is_pinned(vertex) {
            return None;
        }
        let at: usize = self.pins.len();
        self.pins.push(Pin { vertex, at: self.deformed[vertex] });
        self.dirty = true;
        Some(at)
    }

    /// Move pin `index` to document point `p`.
    pub fn move_pin(&mut self, index: usize, p: Point)
        ensures
            final(self)@ == old(self)@.with_moved(index as int, p),
    {
        if index < self.pins.len() {
            let pin = self.pins[index];
            self.pins.set(index, Pin { vertex: pin.vertex, at: p });
            self.redeform();
        }
    }

    /// Remove pin `index`.
    pub fn remove_pin(&mut self, index: usize)
        ensures
            final(self)@ == old(self)@.without_pin(index as int),
    {
        if index < self.pins.len() {
            let _pin = self.pins.remove(index);
            self.redeform();
        }
    }

    /// Clear every pin.
    pub fn reset(&mut self)
        ensures
            final(self)@ == old(self)@.unpinned(),
    {
        self.pins = Vec::new();
        self.redeform();
    }

    /// The pin within `radius` document pixels of `p`, nearest first.
    pub fn pin_near(&self, p: Point, radius: Real32) -> (r: Option<usize>)
        ensures
            match r {
                Some(i) => self@.pin_near(p, radius) == Some(i as int),
                None => self@.pin_near(p, radius) is None,
            },
    {
        let mut points: Vec<Point> = Vec::new();
        let mut i: usize = 0;
        while i < self.pins.len()
            invariant
                i <= self.pins@.len(),
                points@ == held_at(self.pins@.take(i as int)),
            decreases self.pins@.len() - i,
        {
            points.push(self.pins[i].at);
            i = i + 1;
            assert(points@ == held_at(self.pins@.take(i as int)));
        }
        assert(self.pins@.take(i as int) == self.pins@);
        geometry::find_nearest(&points, p, radius)
    }

    /// A press on the canvas at document point `p`: it takes the pin that is
    /// within `pick` of it, or places one.
    pub fn pressed(&mut self, p: Point, pick: Real32)
        ensures
            final(self)@ == old(self)@.pressed(p, pick),
    {
        self.dragging = match self.pin_near(p, pick) {
            Some(i) => Some(i),
            None => self.add_pin(p),
        };
    }

    /// A secondary click at document point `p`: it removes the pin that is
    /// within `pick` of it.
    pub fn secondary_clicked(&mut self, p: Point, pick: Real32)
        ensures
            final(self)@ == match old(self)@.pin_near(p, pick) {
                Some(i) => old(self)@.without_pin(i),
                None => old(self)@,
            },
    {
        match self.pin_near(p, pick) {
            Some(i) => {
                self.remove_pin(i);
            },
            None => {},
        }
    }

    /// The drag goes on to document point `p`.
    pub fn dragged(&mut self, p: Point)
        ensures
            final(self)@ == match old(self)@.dragging {
                Some(i) => old(self)@.with_moved(i, p),
                None => old(self)@,
            },
    {
        match self.dragging {
            Some(i) => {
                self.move_pin(i, p);
            },
            None => {},
        }
    }

    /// The pointer let go.
    pub fn release(&mut self)
        ensures
            final(self)@ == (PuppetModel { dragging: None, ..old(self)@ }),
    {
        self.dragging = None;
    }

    /// The spec a confirmation hands over; `None` when the layer has no ink to
    /// lay a mesh on, or while a pose is owed.
    pub fn confirm(&self) -> (r: Option<PuppetWarpSpec>)
        ensures
            chrome::request_view(r) == self@.confirmation(),
    {
        if self.stale {
            return None;
        }
        match &self.mesh {
            Some(mesh) => Some(
                PuppetWarpSpec {
                    rest: copied_points(&mesh.rest),
                    deformed: copied_points(&self.deformed),
                },
            ),
            None => None,
        }
    }

    /// Why the primary action is unavailable.
    pub fn blocked_reason(&self) -> (r: Option<String>)
        ensures
            match r {
                Some(reason) => self@.mesh is None && reason@ == strings::entry(
                    "ui.docks.properties.nothing.to.measure"@,
                ),
                None => self@.mesh is Some,
            },
    {
        if self.mesh.is_none() {
            Some(text::copied(strings::tr("ui.docks.properties.nothing.to.measure")))
        } else {
            None
        }
    }

    /// Escape and Enter; Escape wins over Enter.
    pub fn resolve(&self, keys: DialogKeys) -> (r: DialogOutcome<PuppetWarpSpec>)
        ensures
            r@ == chrome::settled(keys, self@.confirmation()),
    {
        chrome::settle(keys, self.confirm())
    }

    /// A button of the action row; its one extra button is Reset.
    pub fn press(&mut self, button: DialogButton) -> (r: DialogOutcome<PuppetWarpSpec>)
        ensures
            final(self)@ == if button is Extra {
                old(self)@.unpinned()
            } else {
                old(self)@
            },
            r@ == chrome::pressed(button, old(self)@.confirmation()),
    {
        match button {
            DialogButton::Extra(_) => {
                self.reset();
                DialogOutcome::Open
            },
            other => chrome::press(other, self.confirm()),
        }
    }
}

} // verus!
