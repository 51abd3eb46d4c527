//! Installing a canvas as the root window's background.
//!
//! The library decides which request is sent next; the caller sends it and
//! hands back the reply.

use crate::color::Rgb;
use crate::raster::{lemma_cell_index, Canvas, Grid};
use vstd::prelude::*;

verus! {

/// The predefined atom `PIXMAP`, the type of the three properties.
pub const PIXMAP: u32 = 20;

/// The format of the three properties: each holds words of 32 bits.
pub const FORMAT: u8 = 32;

/// How many words of a property are read: the one that names the pixmap.
pub const WORDS: u32 = 1;

/// The number of properties through which wallpaper setters find each
/// other's pixmaps.
pub const PROPERTIES: u8 = 3;

/// What the installer needs to know of the screen.
#[derive(Clone, Copy, Debug, PartialEq, Eq, Structural)]
pub struct Screen {
    pub width: u16,
    pub height: u16,
    pub depth: u8,
}

/// A pixel as the server stores it: red, green and blue in the three low
/// bytes of a word.
pub open spec fn packed(pixel: Rgb) -> u32 {
    ((pixel.red as u32) << 16) | ((pixel.green as u32) << 8) | (pixel.blue as u32)
}

/// A packed pixel is a 24-bit number in which each channel has its own
/// byte.
pub proof fn lemma_packed(pixel: Rgb)
    ensures
        packed(pixel) == pixel.red * 65536 + pixel.green * 256 + pixel.blue,
        packed(pixel) < 0x100_0000,
{
    let r = pixel.red;
    let g = pixel.green;
    let b = pixel.blue;
    assert(((r as u32) << 16) | ((g as u32) << 8) | (b as u32) == r * 65536 + g * 256 + b)
        by (bit_vector);
}

/// Packs a pixel into the word that the server stores.
pub fn pack(pixel: Rgb) -> (out: u32)
    ensures
        out == packed(pixel),
{
    ((pixel.red as u32) << 16) | ((pixel.green as u32) << 8) | (pixel.blue as u32)
}

/// A pixel to be put into the image that is copied to the server.
#[derive(Clone, Copy, Debug, PartialEq, Eq, Structural)]
pub struct Put {
    pub x: u32,
    pub y: u32,
    pub pixel: u32,
}

/// The put for the cell at position `i` of the canvas, in row-major order:
/// the cell's column and row, and its packed colour.
pub open spec fn put_at(canvas: Grid<Rgb>, i: int) -> Put {
    Put {
        x: (i % (canvas.width as int)) as u32,
        y: (i / (canvas.width as int)) as u32,
        pixel: packed(canvas.cells[i]),
    }
}

/// The puts that fill an image of `width` by `height` pixels from a canvas:
/// one for every pixel of the canvas, row after row; or `None` for a canvas
/// of another size than the image.
pub fn puts(canvas: &Canvas, width: u16, height: u16) -> (out: Option<Vec<Put>>)
    ensures
        out is Some <==> canvas@.width == width && canvas@.height == height,
        out matches Some(all) ==> all@.len() == canvas@.cells.len() && forall|i: int|
            0 <= i < all@.len() ==> #[trigger] all@[i] == put_at(canvas@, i),
{
    if canvas.width() != width as u32 || canvas.height() != height as u32 {
        return None;
    }
    proof {
        use_type_invariant(canvas);
    }
    let mut all: Vec<Put> = Vec::new();
    let mut y: u32 = 0;
    while y < height as u32
        invariant
            canvas@.wf(),
            canvas@.width == width,
            canvas@.height == height,
            y <= height,
            all@.len() == y * width,
            forall|i: int| 0 <= i < all@.len() ==> #[trigger] all@[i] == put_at(canvas@, i),
        decreases height - y,
    {
        let mut x: u32 = 0;
        while x < width as u32
            invariant
                canvas@.wf(),
                canvas@.width == width,
                canvas@.height == height,
                y < height,
                x <= width,
                all@.len() == y * width + x,
                forall|i: int| 0 <= i < all@.len() ==> #[trigger] all@[i] == put_at(canvas@, i),
            decreases width - x,
        {
            proof {
                lemma_cell_index(width as int, height as int, x as int, y as int);
            }
            all.push(Put { x, y, pixel: pack(canvas.get(x, y)) });
            x = x + 1;
        }
        proof {
            assert(y * width + width == (y + 1) * width) by (nonlinear_arith);
        }
        y = y + 1;
    }
    proof {
        assert(height * width == width * height) by (nonlinear_arith);
    }
    Some(all)
}

/// The pixmap that a property names: the first word of its value, if the
/// property has the type `PIXMAP` and a value at all.
pub open spec fn property_value(kind: u32, value: Seq<u32>) -> Option<u32> {
    if kind == PIXMAP && value.len() >= 1 {
        Some(value[0])
    } else {
        None
    }
}

/// Reads the pixmap that a property names from its type and value.
pub fn read_property(kind: u32, value: &Vec<u32>) -> (out: Option<u32>)
    ensures
        out == property_value(kind, value@),
{
    if kind == PIXMAP && value.len() >= 1 {
        Some(value[0])
    } else {
        None
    }
}

/// Three values, one for each of the three properties.
#[derive(Clone, Copy, Debug, PartialEq, Eq, Structural)]
pub struct Triple<T> {
    pub first: T,
    pub second: T,
    pub third: T,
}

impl<T: Copy> Triple<T> {
    /// The value for property `k`.
    pub open spec fn at(self, k: u8) -> T {
        if k == 0 {
            self.first
        } else if k == 1 {
            self.second
        } else {
            self.third
        }
    }

    /// These values with that for property `k` replaced.
    pub open spec fn with(self, k: u8, value: T) -> Triple<T> {
        if k == 0 {
            Triple { first: value, ..self }
        } else if k == 1 {
            Triple { second: value, ..self }
        } else {
            Triple { third: value, ..self }
        }
    }

    /// The value for property `k`.
    pub fn get(&self, k: u8) -> (out: T)
        ensures
            out == self.at(k),
    {
        if k == 0 {
            self.first
        } else if k == 1 {
            self.second
        } else {
            self.third
        }
    }

    /// Replaces the value for property `k`.
    pub fn replace(&self, k: u8, value: T) -> (out: Triple<T>)
        ensures
            out == self.with(k, value),
    {
        if k == 0 {
            Triple { first: value, second: self.second, third: self.third }
        } else if k == 1 {
            Triple { first: self.first, second: value, third: self.third }
        } else {
            Triple { first: self.first, second: self.second, third: value }
        }
    }
}

/// The pixmap that a single earlier wallpaper setter left behind, as far as
/// the three properties tell: they must all be set and name one pixmap.
/// This is a convention among wallpaper setters, not a record of ownership.
pub open spec fn single_owner(ids: Triple<Option<u32>>) -> Option<u32> {
    if ids.first is Some && ids.first == ids.second && ids.second == ids.third {
        ids.first
    } else {
        None
    }
}

/// Detects a single earlier owner from what the three properties hold.
pub fn prior_owner(ids: &Triple<Option<u32>>) -> (out: Option<u32>)
    ensures
        out == single_owner(*ids),
{
    match (ids.first, ids.second, ids.third) {
        (Some(a), Some(b), Some(c)) => if a == b && b == c {
            Some(a)
        } else {
            None
        },
        _ => None,
    }
}

/// A request to the display server.
#[derive(Clone, Copy, Debug, PartialEq, Eq, Structural)]
pub enum Request {
    /// Intern the name of property `name`.
    InternAtom { name: u8 },
    /// Read `length` words from word `offset` on of the property `atom` of
    /// the root window, if it has the type `kind`, and delete it if `delete`
    /// is set.
    GetProperty { atom: u32, kind: u32, delete: bool, offset: u32, length: u32 },
    /// Destroy the client that created `resource`, and all it left.
    KillClient { resource: u32 },
    /// Destroy what earlier connections left behind to be retained
    /// temporarily.
    KillAllTemporary,
    /// Have what this connection creates retained when it closes.
    RetainTemporary,
    /// Create a shared-memory image of the screen's size and fill it with
    /// the puts of the canvas.
    CreateImage { width: u16, height: u16, depth: u8 },
    /// Create the pixmap that becomes the background.
    CreatePixmap { pixmap: u32, width: u16, height: u16, depth: u8 },
    /// Create the graphics context that drawing requires.
    CreateContext { context: u32 },
    /// Copy the shared-memory image into the pixmap.
    PutImage { pixmap: u32, context: u32, width: u16, height: u16 },
    /// Make the pixmap the root window's background.
    SetBackground { pixmap: u32 },
    /// Clear the root window and, if `exposures` is set, have the cleared
    /// area exposed, so that the new background is drawn at once.
    ClearRoot { exposures: bool, width: u16, height: u16 },
    /// Replace the property `atom` of the root window by the pixmap, as one
    /// word of `format` bits with the type `kind`.
    ChangeProperty { atom: u32, kind: u32, format: u8, pixmap: u32 },
    /// Send everything that is queued.
    Flush,
}

/// The steps of an installation, as they are named when one fails.
#[derive(Clone, Copy, Debug, PartialEq, Eq, Structural)]
pub enum Step {
    InternAtom,
    ReadProperty,
    KillOwner,
    KillTemporary,
    RetainTemporary,
    CreateImage,
    CreatePixmap,
    CreateContext,
    PutImage,
    SetBackground,
    ClearRoot,
    Publish,
    Flush,
}

/// What a step tries to do, as it is said when the step fails.
pub open spec fn step_text(step: Step) -> Seq<char> {
    match step {
        Step::InternAtom => "failed to intern atom"@,
        Step::ReadProperty => "could not read property"@,
        Step::KillOwner => "could not release the previous background"@,
        Step::KillTemporary => "could not release temporary resources"@,
        Step::RetainTemporary => "could not set close-down mode"@,
        Step::CreateImage => "could not create image"@,
        Step::CreatePixmap => "could not create pixmap"@,
        Step::CreateContext => "could not create context"@,
        Step::PutImage => "could not draw image"@,
        Step::SetBackground => "could not change attributes"@,
        Step::ClearRoot => "could not clear root window"@,
        Step::Publish => "could not publish the background"@,
        Step::Flush => "could not flush the connection"@,
    }
}

/// Says what a step tries to do, for the message of its failure.
pub fn describe(step: Step) -> (out: &'static str)
    ensures
        out@ == step_text(step),
{
    match step {
        Step::InternAtom => "failed to intern atom",
        Step::ReadProperty => "could not read property",
        Step::KillOwner => "could not release the previous background",
        Step::KillTemporary => "could not release temporary resources",
        Step::RetainTemporary => "could not set close-down mode",
        Step::CreateImage => "could not create image",
        Step::CreatePixmap => "could not create pixmap",
        Step::CreateContext => "could not create context",
        Step::PutImage => "could not draw image",
        Step::SetBackground => "could not change attributes",
        Step::ClearRoot => "could not clear root window",
        Step::Publish => "could not publish the background",
        Step::Flush => "could not flush the connection",
    }
}

/// The name of property `index`: the first is that of the pixmap that
/// pseudo-transparent programs read, the second is that which `xsetroot`
/// keeps, the third is this library's own.
pub open spec fn property_name(index: u8) -> Seq<char> {
    if index == 0 {
        "_XROOTPMAP_ID"@
    } else if index == 1 {
        "_XSETROOT_ID"@
    } else {
        "_XENU_BACKGROUND_ID"@
    }
}

/// The name to intern for property `index`.
pub fn atom_name(index: u8) -> (out: &'static str)
    ensures
        out@ == property_name(index),
{
    if index == 0 {
        "_XROOTPMAP_ID"
    } else if index == 1 {
        "_XSETROOT_ID"
    } else {
        "_XENU_BACKGROUND_ID"
    }
}

/// The step that a request belongs to.
pub open spec fn step_of(request: Request) -> Step {
    match request {
        Request::InternAtom { .. } => Step::InternAtom,
        Request::GetProperty { .. } => Step::ReadProperty,
        Request::KillClient { .. } => Step::KillOwner,
        Request::KillAllTemporary => Step::KillTemporary,
        Request::RetainTemporary => Step::RetainTemporary,
        Request::CreateImage { .. } => Step::CreateImage,
        Request::CreatePixmap { .. } => Step::CreatePixmap,
        Request::CreateContext { .. } => Step::CreateContext,
        Request::PutImage { .. } => Step::PutImage,
        Request::SetBackground { .. } => Step::SetBackground,
        Request::ClearRoot { .. } => Step::ClearRoot,
        Request::ChangeProperty { .. } => Step::Publish,
        Request::Flush => Step::Flush,
    }
}

/// Names the step that a request belongs to.
pub fn step(request: &Request) -> (out: Step)
    ensures
        out == step_of(*request),
{
    match request {
        Request::InternAtom { .. } => Step::InternAtom,
        Request::GetProperty { .. } => Step::ReadProperty,
        Request::KillClient { .. } => Step::KillOwner,
        Request::KillAllTemporary => Step::KillTemporary,
        Request::RetainTemporary => Step::RetainTemporary,
        Request::CreateImage { .. } => Step::CreateImage,
        Request::CreatePixmap { .. } => Step::CreatePixmap,
        Request::CreateContext { .. } => Step::CreateContext,
        Request::PutImage { .. } => Step::PutImage,
        Request::SetBackground { .. } => Step::SetBackground,
        Request::ClearRoot { .. } => Step::ClearRoot,
        Request::ChangeProperty { .. } => Step::Publish,
        Request::Flush => Step::Flush,
    }
}

/// The request that reads the pixmap that the property `atom` names: its
/// first word, as type `PIXMAP`, and the property stays.
pub open spec fn reading(atom: u32) -> Request {
    Request::GetProperty { atom, kind: PIXMAP, delete: false, offset: 0, length: WORDS }
}

/// The request that writes the pixmap into the property `atom`: as type
/// `PIXMAP`, in 32 bits.
pub open spec fn publishing(atom: u32, pixmap: u32) -> Request {
    Request::ChangeProperty { atom, kind: PIXMAP, format: FORMAT, pixmap }
}

/// The request that has the whole root window drawn afresh.
pub open spec fn clearing(screen: Screen) -> Request {
    Request::ClearRoot { exposures: true, width: screen.width, height: screen.height }
}

fn read(atom: u32) -> (out: Request)
    ensures
        out == reading(atom),
{
    Request::GetProperty { atom, kind: PIXMAP, delete: false, offset: 0, length: WORDS }
}

fn publish(atom: u32, pixmap: u32) -> (out: Request)
    ensures
        out == publishing(atom, pixmap),
{
    Request::ChangeProperty { atom, kind: PIXMAP, format: FORMAT, pixmap }
}

fn clear(screen: Screen) -> (out: Request)
    ensures
        out == clearing(screen),
{
    Request::ClearRoot { exposures: true, width: screen.width, height: screen.height }
}

/// The requests that clean up after an earlier owner, if one was detected.
pub open spec fn cleanup(owner: Option<u32>) -> Seq<Request> {
    match owner {
        Some(resource) => seq![Request::KillClient { resource }],
        None => seq![],
    }
}

/// The requests that follow the reading of the three properties, in the
/// order in which they are sent: whatever an earlier owner left is
/// destroyed before anything is created, the pixmap is complete before it
/// becomes the background, and it is published last.
pub open spec fn script(
    screen: Screen,
    pixmap: u32,
    context: u32,
    atoms: Triple<u32>,
    owner: Option<u32>,
) -> Seq<Request> {
    cleanup(owner).push(Request::KillAllTemporary).push(Request::RetainTemporary).push(
        Request::CreateImage { width: screen.width, height: screen.height, depth: screen.depth },
    ).push(
        Request::CreatePixmap {
            pixmap,
            width: screen.width,
            height: screen.height,
            depth: screen.depth,
        },
    ).push(Request::CreateContext { context }).push(
        Request::PutImage { pixmap, context, width: screen.width, height: screen.height },
    ).push(Request::SetBackground { pixmap }).push(clearing(screen)).push(
        publishing(atoms.first, pixmap),
    ).push(publishing(atoms.second, pixmap)).push(publishing(atoms.third, pixmap)).push(
        Request::Flush,
    )
}

/// What the caller is to do next.
#[derive(Clone, Copy, Debug, PartialEq, Eq, Structural)]
pub enum Action {
    /// Send this request and hand back the reply.
    Send(Request),
    /// The background is installed.
    Finish,
    /// The installation failed at this step; nothing more is to be sent.
    Abort(Step),
}

/// What the server answered.
#[derive(Clone, Copy, Debug, PartialEq, Eq, Structural)]
pub enum Reply {
    /// The request was carried out.
    Done,
    /// The request failed.
    Failed,
    /// The atom for an interned name.
    Atom(u32),
    /// The pixmap that a property names, if it names one.
    Property(Option<u32>),
}

/// How far an installation is.
#[derive(Clone, Copy, Debug, PartialEq, Eq, Structural)]
pub enum Stage {
    /// The name of property `at` is being interned.
    Interning,
    /// Property `at` is being read.
    Reading,
    /// Request `at` of the script was sent.
    Running,
    /// The background is installed.
    Finished,
    /// The installation failed at the given step.
    Aborted(Step),
}

/// An installation in progress.
#[derive(Clone, Copy, Debug, PartialEq, Eq, Structural)]
pub struct Installer {
    pub screen: Screen,
    pub pixmap: u32,
    pub context: u32,
    pub stage: Stage,
    pub at: u8,
    pub atoms: Triple<u32>,
    pub ids: Triple<Option<u32>>,
}

impl Installer {
    /// The installation before anything was sent.
    pub open spec fn initial(screen: Screen, pixmap: u32, context: u32) -> Installer {
        Installer {
            screen,
            pixmap,
            context,
            stage: Stage::Interning,
            at: 0,
            atoms: Triple { first: 0, second: 0, third: 0 },
            ids: Triple { first: None, second: None, third: None },
        }
    }

    /// The script of this installation, once the properties are read.
    pub open spec fn script(self) -> Seq<Request> {
        script(self.screen, self.pixmap, self.context, self.atoms, single_owner(self.ids))
    }

    /// The installation after it has failed at `step`.
    pub open spec fn aborted(self, step: Step) -> (Installer, Action) {
        (Installer { stage: Stage::Aborted(step), ..self }, Action::Abort(step))
    }

    /// The installation after `reply` has come in, and what is to be done
    /// next.
    ///
    /// A name that cannot be interned is fatal.  A property that cannot be
    /// read counts as unset.  Every request of the script must be carried
    /// out; the first that is not ends the installation, and names its
    /// step.  Once the installation is over, it stays as it is.
    pub open spec fn advanced(self, reply: Reply) -> (Installer, Action) {
        match self.stage {
            Stage::Interning => match reply {
                Reply::Atom(atom) => {
                    let atoms = self.atoms.with(self.at, atom);
                    if self.at + 1 < PROPERTIES {
                        (
                            Installer { atoms, at: (self.at + 1) as u8, ..self },
                            Action::Send(Request::InternAtom { name: (self.at + 1) as u8 }),
                        )
                    } else {
                        (
                            Installer { atoms, stage: Stage::Reading, at: 0, ..self },
                            Action::Send(reading(atoms.first)),
                        )
                    }
                },
                _ => self.aborted(Step::InternAtom),
            },
            Stage::Reading => {
                let id = match reply {
                    Reply::Property(id) => id,
                    _ => None,
                };
                let ids = self.ids.with(self.at, id);
                if self.at + 1 < PROPERTIES {
                    (
                        Installer { ids, at: (self.at + 1) as u8, ..self },
                        Action::Send(reading(self.atoms.at((self.at + 1) as u8))),
                    )
                } else {
                    let next = Installer { ids, stage: Stage::Running, at: 0, ..self };
                    (next, Action::Send(next.script()[0]))
                }
            },
            Stage::Running => match reply {
                Reply::Done => if self.at + 1 < self.script().len() {
                    (
                        Installer { at: (self.at + 1) as u8, ..self },
                        Action::Send(self.script()[self.at + 1]),
                    )
                } else {
                    (Installer { stage: Stage::Finished, ..self }, Action::Finish)
                },
                _ => if self.at < self.script().len() {
                    self.aborted(step_of(self.script()[self.at as int]))
                } else {
                    self.aborted(Step::Flush)
                },
            },
            Stage::Finished => (self, Action::Finish),
            Stage::Aborted(step) => (self, Action::Abort(step)),
        }
    }

    /// Starts an installation on `screen`, with the ids that the connection
    /// generated for the pixmap and the graphics context.
    pub fn start(screen: Screen, pixmap: u32, context: u32) -> (out: (Installer, Action))
        ensures
            out.0 == Installer::initial(screen, pixmap, context),
            out.1 == Action::Send(Request::InternAtom { name: 0 }),
    {
        (
            Installer {
                screen,
                pixmap,
                context,
                stage: Stage::Interning,
                at: 0,
                atoms: Triple { first: 0, second: 0, third: 0 },
                ids: Triple { first: None, second: None, third: None },
            },
            Action::Send(Request::InternAtom { name: 0 }),
        )
    }

    /// Request `k` of the script, if it is that long.
    pub fn scripted(&self, k: u8) -> (out: Option<Request>)
        ensures
            out == if k < self.script().len() {
                Some(self.script()[k as int])
            } else {
                None
            },
            12 <= self.script().len() <= 13,
    {
        let screen = self.screen;
        let pixmap = self.pixmap;
        let context = self.context;
        let owner = prior_owner(&self.ids);
        let k: u8 = match owner {
            Some(resource) => {
                if k == 0 {
                    return Some(Request::KillClient { resource });
                }
                k - 1
            },
            None => k,
        };
        if k == 0 {
            Some(Request::KillAllTemporary)
        } else if k == 1 {
            Some(Request::RetainTemporary)
        } else if k == 2 {
            Some(
                Request::CreateImage {
                    width: screen.width,
                    height: screen.height,
                    depth: screen.depth,
                },
            )
        } else if k == 3 {
            Some(
                Request::CreatePixmap {
                    pixmap,
                    width: screen.width,
                    height: screen.height,
                    depth: screen.depth,
                },
            )
        } else if k == 4 {
            Some(Request::CreateContext { context })
        } else if k == 5 {
            Some(Request::PutImage { pixmap, context, width: screen.width, height: screen.height })
        } else if k == 6 {
            Some(Request::SetBackground { pixmap })
        } else if k == 7 {
            Some(clear(screen))
        } else if k == 8 {
            Some(publish(self.atoms.first, pixmap))
        } else if k == 9 {
            Some(publish(self.atoms.second, pixmap))
        } else if k == 10 {
            Some(publish(self.atoms.third, pixmap))
        } else if k == 11 {
            Some(Request::Flush)
        } else {
            None
        }
    }

    /// Takes in the reply to the request that was sent last, and says what
    /// is to be done next.
    pub fn advance(self, reply: Reply) -> (out: (Installer, Action))
        ensures
            out == self.advanced(reply),
    {
        match self.stage {
            Stage::Interning => match reply {
                Reply::Atom(atom) => {
                    let atoms = self.atoms.replace(self.at, atom);
                    if self.at < PROPERTIES - 1 {
                        (
                            Installer { atoms, at: self.at + 1, ..self },
                            Action::Send(Request::InternAtom { name: self.at + 1 }),
                        )
                    } else {
                        (
                            Installer { atoms, stage: Stage::Reading, at: 0, ..self },
                            Action::Send(read(atoms.first)),
                        )
                    }
                },
                _ => (
                    Installer { stage: Stage::Aborted(Step::InternAtom), ..self },
                    Action::Abort(Step::InternAtom),
                ),
            },
            Stage::Reading => {
                let id = match reply {
                    Reply::Property(id) => id,
                    _ => None,
                };
                let ids = self.ids.replace(self.at, id);
                if self.at < PROPERTIES - 1 {
                    (
                        Installer { ids, at: self.at + 1, ..self },
                        Action::Send(read(self.atoms.get(self.at + 1))),
                    )
                } else {
                    let next = Installer { ids, stage: Stage::Running, at: 0, ..self };
                    match next.scripted(0) {
                        Some(request) => (next, Action::Send(request)),
                        None => (next, Action::Finish),
                    }
                }
            },
            Stage::Running => match reply {
                Reply::Done => {
                    let following = if self.at < 255 {
                        self.scripted(self.at + 1)
                    } else {
                        None
                    };
                    match following {
                        Some(request) => (
                            Installer { at: self.at + 1, ..self },
                            Action::Send(request),
                        ),
                        None => (Installer { stage: Stage::Finished, ..self }, Action::Finish),
                    }
                },
                _ => {
                    let failed = match self.scripted(self.at) {
                        Some(request) => step(&request),
                        None => Step::Flush,
                    };
                    (Installer { stage: Stage::Aborted(failed), ..self }, Action::Abort(failed))
                },
            },
            Stage::Finished => (self, Action::Finish),
            Stage::Aborted(failed) => (self, Action::Abort(failed)),
        }
    }
}

/// From its start, an installation interns the three names in order, then
/// reads the three properties in order, and then sends the first request of
/// the script for what it has read.  A property whose reading failed counts
/// as unset.
pub proof fn lemma_readings_start_script(
    screen: Screen,
    pixmap: u32,
    context: u32,
    atoms: Triple<u32>,
    first: Reply,
    second: Reply,
    third: Reply,
)
    ensures
        ({
            let start = Installer::initial(screen, pixmap, context);
            let a = start.advanced(Reply::Atom(atoms.first));
            let b = a.0.advanced(Reply::Atom(atoms.second));
            let c = b.0.advanced(Reply::Atom(atoms.third));
            let d = c.0.advanced(first);
            let e = d.0.advanced(second);
            let f = e.0.advanced(third);
            &&& a.1 == Action::Send(Request::InternAtom { name: 1 })
            &&& b.1 == Action::Send(Request::InternAtom { name: 2 })
            &&& c.1 == Action::Send(reading(atoms.first))
            &&& d.1 == Action::Send(reading(atoms.second))
            &&& e.1 == Action::Send(reading(atoms.third))
            &&& f.0.stage == Stage::Running
            &&& f.0.at == 0
            &&& f.0.atoms == atoms
            &&& f.0.ids == (Triple {
                first: read_reply(first),
                second: read_reply(second),
                third: read_reply(third),
            })
            &&& f.1 == Action::Send(f.0.script()[0])
        }),
{
}

/// The pixmap that the reply to the reading of a property stands for.
pub open spec fn read_reply(reply: Reply) -> Option<u32> {
    match reply {
        Reply::Property(id) => id,
        _ => None,
    }
}

/// While the script runs, every request that was carried out is followed
/// by the next request of the script, and the last by the end of the
/// installation; a request that was not carried out ends the installation
/// at its step.
pub proof fn lemma_script_runs_in_order(installer: Installer, reply: Reply)
    requires
        installer.stage == Stage::Running,
        installer.at < installer.script().len(),
    ensures
        reply == Reply::Done && installer.at + 1 < installer.script().len()
            ==> installer.advanced(reply).1 == Action::Send(
            installer.script()[installer.at + 1],
        ) && installer.advanced(reply).0.stage == Stage::Running && installer.advanced(
            reply,
        ).0.script() == installer.script(),
        reply == Reply::Done && installer.at + 1 == installer.script().len()
            ==> installer.advanced(reply) == (
            Installer { stage: Stage::Finished, ..installer },
            Action::Finish,
        ),
        reply != Reply::Done ==> installer.advanced(reply).1 == Action::Abort(
            step_of(installer.script()[installer.at as int]),
        ),
{
}

/// An installation that is over takes no notice of what comes in.
pub proof fn lemma_over_stays_over(installer: Installer, reply: Reply)
    requires
        installer.stage is Finished || installer.stage is Aborted,
    ensures
        installer.advanced(reply).0 == installer,
        installer.stage is Finished ==> installer.advanced(reply).1 == Action::Finish,
        installer.stage matches Stage::Aborted(step) ==> installer.advanced(reply).1
            == Action::Abort(step),
{
}

} // verus!
