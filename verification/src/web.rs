//! The interactive viewer's state and its reaction to messages.
//!
//! The viewer keeps the shading toggles, the camera, the assets that have
//! arrived and the model assembled from them. [`Model::update`] is the whole
//! reaction to one message: it changes the state and says what the shell
//! around it has to do next (rasterize again, fetch assets, start the pulse
//! of the animation). Nothing here draws or fetches.

use vstd::prelude::*;
use crate::image::Image;
use crate::la::Vec3;
use crate::model;
use crate::shader::ShaderConf;
use crate::wf::Wavefront;

verus! {

/// The models the viewer can show.
#[derive(Clone, Copy, Debug, PartialEq, Eq, Structural)]
pub enum ModelType {
    DIABLO,
    AFRICAN,
}

/// The three assets a model is assembled from.
#[derive(Clone, Copy, Debug, PartialEq, Eq, Structural)]
pub enum Asset {
    Texture,
    Normals,
    Mesh,
}

/// What the viewer reacts to.
pub enum Msg<S> {
    /// The diffuse texture has arrived.
    Texture(Image),
    /// The mesh has arrived.
    Model(Wavefront<S>),
    /// The normal map has arrived.
    Normals(Image),
    /// The camera moves to a new position.
    Upd(Vec3<S>),
    /// The camera looks at a new target.
    UpdC(Vec3<S>),
    /// Another model is asked for.
    Load(ModelType),
    /// Toggle the diffuse term.
    Diff,
    /// The animation's pulse.
    Pulse,
    /// Toggle the specular term.
    Spec,
    /// Toggle the diffuse texture.
    Txt,
    /// Toggle between the colour image and the depth image.
    Zbuff,
    /// Toggle the normal map.
    Norm,
    /// Toggle the occlusion pass.
    Occl,
    /// Start the animation at the given phase.
    Anim(S),
    /// The pointer went down at this place to rotate the camera.
    RotationStarted(i32, i32),
    RotationEnded,
    /// The pointer went down at this place to move the camera's target.
    MoveStarted(i32, i32),
    MoveEnded,
    Noop,
}

/// What the shell has to do after a message.
#[derive(Clone, Copy, Debug, PartialEq, Eq, Structural)]
pub struct Update {
    /// The page has to be laid out again.
    pub redraw: bool,
    /// The scene has to be rasterized again.
    pub render: bool,
    /// The three assets of this model have to be fetched.
    pub load: Option<ModelType>,
    /// The pulse of the animation has to be started.
    pub start_pulse: bool,
}

/// What a movement of the pointer means.
pub enum Drag<S> {
    /// The camera rotates: the pointer's distance from where the rotation
    /// started, and the camera position at that time.
    Rotate { dx: i64, dy: i64, from: Vec3<S> },
    /// The camera's target moves: the pointer's distance from where the move
    /// started, and the target at that time.
    Move { dx: i64, dy: i64, from: Vec3<S> },
    /// No button is held.
    Idle,
}

/// The viewer's state.
pub struct Model<S> {
    pub conf: ShaderConf,
    pub zbuff: bool,
    pub texture: Option<Image>,
    pub wavefront: Option<Wavefront<S>>,
    pub normals: Option<Image>,
    pub model: Option<model::Model<S>>,
    pub model_type: ModelType,
    pub campos: Vec3<S>,
    pub animation: Option<S>,
    pub camplace: Vec3<S>,
    pub rotation_start: Option<(i32, i32, Vec3<S>)>,
    pub move_start: Option<(i32, i32, Vec3<S>)>,
}

/// Where an asset of a model is fetched from.
pub fn asset_path(model: ModelType, asset: Asset) -> (path: &'static str)
    ensures
        path@ == match (model, asset) {
            (ModelType::AFRICAN, Asset::Texture) => "./african_head/texture.tga"@,
            (ModelType::AFRICAN, Asset::Normals) => "./african_head/normals.tga"@,
            (ModelType::AFRICAN, Asset::Mesh) => "./african_head/model.obj"@,
            (ModelType::DIABLO, Asset::Texture) => "./diablo/texture.tga"@,
            (ModelType::DIABLO, Asset::Normals) => "./diablo/normals.tga"@,
            (ModelType::DIABLO, Asset::Mesh) => "./diablo/model.obj"@,
        },
{
    match model {
        ModelType::AFRICAN => match asset {
            Asset::Texture => "./african_head/texture.tga",
            Asset::Normals => "./african_head/normals.tga",
            Asset::Mesh => "./african_head/model.obj",
        },
        ModelType::DIABLO => match asset {
            Asset::Texture => "./diablo/texture.tga",
            Asset::Normals => "./diablo/normals.tga",
            Asset::Mesh => "./diablo/model.obj",
        },
    }
}

/// The message for a button that went down at `(x, y)`: the main button
/// starts a rotation, any other a move of the target.
pub fn mouse_down<S>(button: i16, x: i32, y: i32) -> (msg: Msg<S>)
    ensures
        msg == if button == 0 {
            Msg::<S>::RotationStarted(x, y)
        } else {
            Msg::<S>::MoveStarted(x, y)
        },
{
    if button == 0 {
        Msg::RotationStarted(x, y)
    } else {
        Msg::MoveStarted(x, y)
    }
}

/// The message for a button that went up.
pub fn mouse_up<S>(button: i16) -> (msg: Msg<S>)
    ensures
        msg == if button == 0 {
            Msg::<S>::RotationEnded
        } else {
            Msg::<S>::MoveEnded
        },
{
    if button == 0 {
        Msg::RotationEnded
    } else {
        Msg::MoveEnded
    }
}

/// What the pointer at `(client_x, client_y)` means, given where a rotation
/// and a move started, if they did. A rotation in progress wins over a move.
pub fn drag<S: Copy>(
    rotation_start: Option<(i32, i32, Vec3<S>)>,
    move_start: Option<(i32, i32, Vec3<S>)>,
    client_x: i32,
    client_y: i32,
) -> (d: Drag<S>)
    ensures
        d == match rotation_start {
            Some((px, py, from)) => Drag::Rotate {
                dx: (px - client_x) as i64,
                dy: (py - client_y) as i64,
                from,
            },
            None => match move_start {
                Some((px, py, from)) => Drag::Move {
                    dx: (px - client_x) as i64,
                    dy: (py - client_y) as i64,
                    from,
                },
                None => Drag::Idle,
            },
        },
{
    match rotation_start {
        Some((px, py, from)) => Drag::Rotate {
            dx: px as i64 - client_x as i64,
            dy: py as i64 - client_y as i64,
            from,
        },
        None => match move_start {
            Some((px, py, from)) => Drag::Move {
                dx: px as i64 - client_x as i64,
                dy: py as i64 - client_y as i64,
                from,
            },
            None => Drag::Idle,
        },
    }
}

impl<S: Copy> Model<S> {
    /// The three assets are all waiting to be assembled.
    pub open spec fn assets_complete(&self) -> bool {
        self.texture is Some && self.wavefront is Some && self.normals is Some
    }

    /// Between messages the assets never wait all three: as soon as the last
    /// one arrives they are assembled into the model.
    pub open spec fn wf(&self) -> bool {
        !self.assets_complete()
    }

    /// There is something to rasterize: a model, or the assets for one.
    pub open spec fn is_ready(&self) -> bool {
        self.model is Some || self.assets_complete()
    }

    /// The state with the three waiting assets assembled into the model.
    pub open spec fn prepared(self) -> Self {
        Model {
            model: Some(
                model::Model {
                    model: self.wavefront->0,
                    normal_map: self.normals->0,
                    texture: self.texture->0,
                },
            ),
            texture: None,
            wavefront: None,
            normals: None,
            ..self
        }
    }

    /// The state with an arrived asset put in its place, and the model
    /// assembled if that asset was the last one missing.
    pub open spec fn received(self) -> Self {
        if self.is_ready() {
            self.prepared()
        } else {
            self
        }
    }

    /// The state after `msg`.
    pub open spec fn next(self, msg: Msg<S>) -> Self {
        match msg {
            Msg::Zbuff => Model { zbuff: !self.zbuff, ..self },
            Msg::Occl => Model {
                conf: ShaderConf { occlusion: !self.conf.occlusion, ..self.conf },
                ..self
            },
            Msg::Norm => Model {
                conf: ShaderConf { normals: !self.conf.normals, ..self.conf },
                ..self
            },
            Msg::Diff => Model {
                conf: ShaderConf { diff_light: !self.conf.diff_light, ..self.conf },
                ..self
            },
            Msg::Spec => Model {
                conf: ShaderConf { spec_light: !self.conf.spec_light, ..self.conf },
                ..self
            },
            Msg::Txt => Model {
                conf: ShaderConf { texture: !self.conf.texture, ..self.conf },
                ..self
            },
            Msg::Upd(v) => Model { campos: v, ..self },
            Msg::UpdC(v) => Model { camplace: v, ..self },
            Msg::Texture(img) => (Model { texture: Some(img), ..self }).received(),
            Msg::Normals(img) => (Model { normals: Some(img), ..self }).received(),
            Msg::Model(mesh) => (Model { wavefront: Some(mesh), ..self }).received(),
            Msg::RotationStarted(x, y) => Model {
                rotation_start: Some((x, y, self.campos)),
                ..self
            },
            Msg::RotationEnded => Model { rotation_start: None, ..self },
            Msg::MoveStarted(x, y) => Model { move_start: Some((x, y, self.camplace)), ..self },
            Msg::MoveEnded => Model { move_start: None, ..self },
            Msg::Load(mt) => if mt == self.model_type {
                self
            } else {
                Model {
                    model: None,
                    texture: None,
                    normals: None,
                    wavefront: None,
                    model_type: mt,
                    ..self
                }
            },
            Msg::Anim(phase) => Model { animation: Some(phase), ..self },
            Msg::Pulse => self,
            Msg::Noop => self,
        }
    }

    /// What the shell has to do after `msg`.
    pub open spec fn outcome(self, msg: Msg<S>) -> Update {
        match msg {
            Msg::Zbuff | Msg::Occl | Msg::Norm | Msg::Diff | Msg::Spec | Msg::Txt | Msg::Upd(_)
            | Msg::UpdC(_) => Update {
                redraw: true,
                render: self.is_ready(),
                load: None,
                start_pulse: false,
            },
            Msg::Texture(_) | Msg::Normals(_) | Msg::Model(_) => Update {
                redraw: true,
                render: self.next(msg).model is Some,
                load: None,
                start_pulse: false,
            },
            Msg::RotationStarted(_, _) | Msg::RotationEnded | Msg::MoveStarted(_, _)
            | Msg::MoveEnded => Update {
                redraw: true,
                render: false,
                load: None,
                start_pulse: false,
            },
            Msg::Load(mt) => Update {
                redraw: false,
                render: false,
                load: if mt == self.model_type {
                    None
                } else {
                    Some(mt)
                },
                start_pulse: false,
            },
            Msg::Anim(_) => Update {
                redraw: false,
                render: false,
                load: None,
                start_pulse: true,
            },
            Msg::Pulse => Update {
                redraw: false,
                render: self.is_ready(),
                load: None,
                start_pulse: false,
            },
            Msg::Noop => Update { redraw: false, render: false, load: None, start_pulse: false },
        }
    }

    /// The message can be handled: an asset that arrives while a model is in
    /// place must be the last of a new set of three.
    pub open spec fn accepts(&self, msg: Msg<S>) -> bool {
        match msg {
            Msg::Texture(_) => self.model is Some ==> self.wavefront is Some && self.normals
                is Some,
            Msg::Normals(_) => self.model is Some ==> self.wavefront is Some && self.texture
                is Some,
            Msg::Model(_) => self.model is Some ==> self.texture is Some && self.normals is Some,
            _ => true,
        }
    }

    /// The viewer before any message: default toggles, the colour image
    /// shown, no asset, the first model chosen, no animation, no button held.
    pub fn create(campos: Vec3<S>, camplace: Vec3<S>) -> (m: Self)
        ensures
            m.wf(),
            !m.is_ready(),
            m == (Model {
                conf: ShaderConf {
                    diff_light: true,
                    spec_light: true,
                    texture: true,
                    normals: true,
                    occlusion: false,
                },
                zbuff: false,
                texture: None,
                wavefront: None,
                normals: None,
                model: None,
                model_type: ModelType::AFRICAN,
                campos,
                animation: None,
                camplace,
                rotation_start: None,
                move_start: None,
            }),
    {
        Model {
            conf: ShaderConf::new(),
            zbuff: false,
            texture: None,
            wavefront: None,
            normals: None,
            model: None,
            model_type: ModelType::AFRICAN,
            campos,
            animation: None,
            camplace,
            rotation_start: None,
            move_start: None,
        }
    }

    /// The assets to fetch once the page has been laid out: those of the
    /// first model, the first time only.
    pub fn rendered(&self, first_render: bool) -> (load: Option<ModelType>)
        ensures
            load == if first_render {
                Some(ModelType::AFRICAN)
            } else {
                None
            },
    {
        if first_render {
            Some(ModelType::AFRICAN)
        } else {
            None
        }
    }

    /// Tells whether `msg` can be handled now: the state is as it is between
    /// messages, and an asset that arrives while a model is in place is the
    /// last of a new set of three.
    pub fn takes(&self, msg: &Msg<S>) -> (b: bool)
        ensures
            b == (self.wf() && self.accepts(*msg)),
    {
        if self.texture.is_some() && self.wavefront.is_some() && self.normals.is_some() {
            return false;
        }
        match msg {
            Msg::Texture(_) => self.model.is_none() || (self.wavefront.is_some()
                && self.normals.is_some()),
            Msg::Normals(_) => self.model.is_none() || (self.wavefront.is_some()
                && self.texture.is_some()),
            Msg::Model(_) => self.model.is_none() || (self.texture.is_some()
                && self.normals.is_some()),
            _ => true,
        }
    }

    /// Tells whether there is something to rasterize.
    pub fn ready(&self) -> (b: bool)
        ensures
            b == self.is_ready(),
    {
        self.model.is_some() || (self.texture.is_some() && self.wavefront.is_some()
            && self.normals.is_some())
    }

    /// Assembles the model from the three waiting assets.
    pub fn prepare(&mut self)
        requires
            old(self).assets_complete(),
        ensures
            *final(self) == old(self).prepared(),
    {
        let mesh = self.wavefront.take().unwrap();
        let normals = self.normals.take().unwrap();
        let texture = self.texture.take().unwrap();
        self.model = Some(model::Model::new(mesh, normals, texture));
    }

    /// Handles one message: changes the state and tells the shell what to do.
    pub fn update(&mut self, msg: Msg<S>) -> (u: Update)
        requires
            old(self).wf(),
            old(self).accepts(msg),
        ensures
            *final(self) == old(self).next(msg),
            u == old(self).outcome(msg),
            final(self).wf(),
            u.render ==> final(self).model is Some,
    {
        match msg {
            Msg::Zbuff => {
                self.zbuff = !self.zbuff;
                Update { redraw: true, render: self.ready(), load: None, start_pulse: false }
            },
            Msg::Occl => {
                self.conf.occlusion = !self.conf.occlusion;
                Update { redraw: true, render: self.ready(), load: None, start_pulse: false }
            },
            Msg::Norm => {
                self.conf.normals = !self.conf.normals;
                Update { redraw: true, render: self.ready(), load: None, start_pulse: false }
            },
            Msg::Diff => {
                self.conf.diff_light = !self.conf.diff_light;
                Update { redraw: true, render: self.ready(), load: None, start_pulse: false }
            },
            Msg::Spec => {
                self.conf.spec_light = !self.conf.spec_light;
                Update { redraw: true, render: self.ready(), load: None, start_pulse: false }
            },
            Msg::Txt => {
                self.conf.texture = !self.conf.texture;
                Update { redraw: true, render: self.ready(), load: None, start_pulse: false }
            },
            Msg::Upd(v) => {
                self.campos = v;
                Update { redraw: true, render: self.ready(), load: None, start_pulse: false }
            },
            Msg::UpdC(v) => {
                self.camplace = v;
                Update { redraw: true, render: self.ready(), load: None, start_pulse: false }
            },
            Msg::Texture(img) => {
                self.texture = Some(img);
                self.receive()
            },
            Msg::Normals(img) => {
                self.normals = Some(img);
                self.receive()
            },
            Msg::Model(mesh) => {
                self.wavefront = Some(mesh);
                self.receive()
            },
            Msg::RotationStarted(x, y) => {
                self.rotation_start = Some((x, y, self.campos));
                Update { redraw: true, render: false, load: None, start_pulse: false }
            },
            Msg::RotationEnded => {
                self.rotation_start = None;
                Update { redraw: true, render: false, load: None, start_pulse: false }
            },
            Msg::MoveStarted(x, y) => {
                self.move_start = Some((x, y, self.camplace));
                Update { redraw: true, render: false, load: None, start_pulse: false }
            },
            Msg::MoveEnded => {
                self.move_start = None;
                Update { redraw: true, render: false, load: None, start_pulse: false }
            },
            Msg::Load(mt) => {
                if mt == self.model_type {
                    Update { redraw: false, render: false, load: None, start_pulse: false }
                } else {
                    self.model = None;
                    self.texture = None;
                    self.normals = None;
                    self.wavefront = None;
                    self.model_type = mt;
                    Update { redraw: false, render: false, load: Some(mt), start_pulse: false }
                }
            },
            Msg::Anim(phase) => {
                self.animation = Some(phase);
                Update { redraw: false, render: false, load: None, start_pulse: true }
            },
            Msg::Pulse => Update {
                redraw: false,
                render: self.ready(),
                load: None,
                start_pulse: false,
            },
            Msg::Noop => Update { redraw: false, render: false, load: None, start_pulse: false },
        }
    }

    /// After an asset has been put in its place: assembles the model if the
    /// asset was the last one missing, and asks for a new image if there is a
    /// model.
    fn receive(&mut self) -> (u: Update)
        requires
            old(self).model is Some ==> old(self).assets_complete(),
        ensures
            *final(self) == old(self).received(),
            u == (Update {
                redraw: true,
                render: final(self).model is Some,
                load: None,
                start_pulse: false,
            }),
            final(self).wf(),
    {
        if self.ready() {
            self.prepare();
            Update { redraw: true, render: true, load: None, start_pulse: false }
        } else {
            Update { redraw: true, render: false, load: None, start_pulse: false }
        }
    }
}

} // verus!
