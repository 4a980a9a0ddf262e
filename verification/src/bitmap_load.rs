//! The order of work in which the bubble bitmap is made, as a state machine.
//!
//! The driver performs a script of effects, then asks the query of the new stage and
//! hands the reply back. Every handle that is taken on the way is given back, on the
//! failing paths too; only the finished bitmap outlives a load.
use vstd::prelude::*;

use crate::image::{crop_of, crop_square, Crop};

verus! {

/// Where a load stands.
#[derive(Clone, Copy, PartialEq, Eq, Structural, Debug)]
pub enum LoadStage {
    /// The memory stream over the icon bytes is being opened.
    Opening,
    /// The image is being decoded from the stream.
    Decoding,
    /// The dimensions of the image are being read.
    Measuring,
    /// The double-size bitmap is being created.
    Rendering(Crop),
    /// A drawing surface on the double-size bitmap is being created.
    Drawing(Crop),
    /// The bitmap of the final size is being created.
    Finishing,
    /// The load is over, with a bitmap or without one.
    Done(bool),
}

/// What the driver asks the system next.
#[derive(Clone, Copy, PartialEq, Eq, Structural, Debug)]
pub enum LoadQuery {
    OpenStream,
    DecodeImage,
    ReadDimensions,
    /// Create the top-down double-size bitmap.
    CreateRender(Dib),
    CreateGraphics,
    /// Create the top-down bitmap of the final size.
    CreateFinal(Dib),
    Nothing,
}

/// What the system answered.
#[derive(Clone, Copy, PartialEq, Eq, Structural, Debug)]
pub enum LoadReply {
    /// The handle that was asked for was made, or was not.
    Made(bool),
    Dimensions(u32, u32),
}

/// What the driver does without looking at the outcome.
#[derive(Clone, Copy, PartialEq, Eq, Structural, Debug)]
pub enum LoadEffect {
    AcquireScreen,
    ReleaseScreen,
    CreateMemory,
    DeleteMemory,
    SelectRender,
    RestoreSelection,
    DeleteRender,
    /// Draw the crop of the image over the whole surface, which has this side.
    Draw(Crop, i32),
    DeleteGraphics,
    DisposeImage,
    ApplyMask,
    Downsample,
}

/// The shape of a device-independent bitmap.
#[derive(Clone, Copy, PartialEq, Eq, Structural, Debug)]
pub struct Dib {
    pub width: i32,
    /// Negative: the rows run from top to bottom.
    pub height: i32,
    pub planes: u16,
    pub bit_count: u16,
}

/// The shape of a square top-down bitmap with 32 bits per pixel.
pub open spec fn square_dib(side: int) -> Dib {
    Dib { width: side as i32, height: (-side) as i32, planes: 1, bit_count: 32 }
}

/// The shape of a square top-down bitmap with 32 bits per pixel.
pub fn make_square_dib(side: i32) -> (dib: Dib)
    requires
        side > i32::MIN,
    ensures
        dib == square_dib(side as int),
        dib.width == side,
        dib.height == -side,
{
    Dib { width: side, height: -side, planes: 1, bit_count: 32 }
}

/// The query that goes with a stage of a load of a bubble of `size` pixels.
pub open spec fn load_query(stage: LoadStage, size: int) -> LoadQuery {
    match stage {
        LoadStage::Opening => LoadQuery::OpenStream,
        LoadStage::Decoding => LoadQuery::DecodeImage,
        LoadStage::Measuring => LoadQuery::ReadDimensions,
        LoadStage::Rendering(_) => LoadQuery::CreateRender(square_dib(2 * size)),
        LoadStage::Drawing(_) => LoadQuery::CreateGraphics,
        LoadStage::Finishing => LoadQuery::CreateFinal(square_dib(size)),
        LoadStage::Done(_) => LoadQuery::Nothing,
    }
}

/// The reply answers the query of the stage.
pub open spec fn load_answers(stage: LoadStage, reply: LoadReply) -> bool {
    match stage {
        LoadStage::Measuring => reply is Dimensions,
        LoadStage::Done(_) => false,
        _ => reply is Made,
    }
}

/// The stage after a reply. One that does not answer the query is passed over.
pub open spec fn load_next(stage: LoadStage, reply: LoadReply) -> LoadStage {
    match (stage, reply) {
        (LoadStage::Opening, LoadReply::Made(true)) => LoadStage::Decoding,
        (LoadStage::Decoding, LoadReply::Made(true)) => LoadStage::Measuring,
        (LoadStage::Measuring, LoadReply::Dimensions(w, h)) => if w == 0 || h == 0 {
            LoadStage::Done(false)
        } else {
            LoadStage::Rendering(crop_of(w, h))
        },
        (LoadStage::Rendering(crop), LoadReply::Made(true)) => LoadStage::Drawing(crop),
        // Without a drawing surface the bitmap stays blank and the load goes on.
        (LoadStage::Drawing(_), LoadReply::Made(_)) => LoadStage::Finishing,
        (LoadStage::Finishing, LoadReply::Made(made)) => LoadStage::Done(made),
        _ => if load_answers(stage, reply) {
            LoadStage::Done(false)
        } else {
            stage
        },
    }
}

/// What is done between a reply and the next query, in order.
pub open spec fn load_script(stage: LoadStage, reply: LoadReply, size: int) -> Seq<LoadEffect> {
    match (stage, reply) {
        (LoadStage::Measuring, LoadReply::Dimensions(w, h)) => if w == 0 || h == 0 {
            seq![LoadEffect::DisposeImage]
        } else {
            seq![LoadEffect::AcquireScreen]
        },
        (LoadStage::Rendering(_), LoadReply::Made(made)) => if made {
            seq![LoadEffect::CreateMemory, LoadEffect::SelectRender]
        } else {
            seq![LoadEffect::ReleaseScreen, LoadEffect::DisposeImage]
        },
        (LoadStage::Drawing(crop), LoadReply::Made(made)) => if made {
            seq![
                LoadEffect::Draw(crop, (2 * size) as i32),
                LoadEffect::DeleteGraphics,
                LoadEffect::DisposeImage,
                LoadEffect::ApplyMask,
            ]
        } else {
            seq![LoadEffect::DisposeImage, LoadEffect::ApplyMask]
        },
        (LoadStage::Finishing, LoadReply::Made(made)) => if made {
            seq![LoadEffect::Downsample] + teardown()
        } else {
            teardown()
        },
        _ => seq![],
    }
}

/// How the scaffolding of a load is taken down once the render bitmap exists.
pub open spec fn teardown() -> Seq<LoadEffect> {
    seq![
        LoadEffect::RestoreSelection,
        LoadEffect::DeleteMemory,
        LoadEffect::DeleteRender,
        LoadEffect::ReleaseScreen,
    ]
}

/// A bubble of this size can be worked on at a stage: from the making of the double-size
/// bitmap on, the doubled size and its negative are 32-bit numbers.
pub open spec fn size_fits(stage: LoadStage, size: int) -> bool {
    match stage {
        LoadStage::Rendering(_) | LoadStage::Drawing(_) | LoadStage::Finishing => i32::MIN < 2
            * size <= i32::MAX,
        _ => true,
    }
}

/// Whether a bubble of this size can be worked on at a stage.
pub fn can_load(stage: LoadStage, size: i32) -> (b: bool)
    ensures
        b == size_fits(stage, size as int),
{
    match stage {
        LoadStage::Rendering(_) | LoadStage::Drawing(_) | LoadStage::Finishing => -0x4000_0000
            < size && size < 0x4000_0000,
        _ => true,
    }
}

/// The first stage of a load.
pub fn load_start() -> (stage: LoadStage)
    ensures
        stage == LoadStage::Opening,
{
    LoadStage::Opening
}

/// The query to put to the system at a stage.
pub fn load_ask(stage: LoadStage, size: i32) -> (query: LoadQuery)
    requires
        size_fits(stage, size as int),
    ensures
        query == load_query(stage, size as int),
{
    match stage {
        LoadStage::Opening => LoadQuery::OpenStream,
        LoadStage::Decoding => LoadQuery::DecodeImage,
        LoadStage::Measuring => LoadQuery::ReadDimensions,
        LoadStage::Rendering(_) => LoadQuery::CreateRender(make_square_dib(size * 2)),
        LoadStage::Drawing(_) => LoadQuery::CreateGraphics,
        LoadStage::Finishing => LoadQuery::CreateFinal(make_square_dib(size)),
        LoadStage::Done(_) => LoadQuery::Nothing,
    }
}

/// Takes a load one reply further: the new stage, and what to do before its query.
pub fn load_step(stage: LoadStage, reply: LoadReply, size: i32) -> (step: (
    LoadStage,
    Vec<LoadEffect>,
))
    requires
        size_fits(stage, size as int),
    ensures
        step.0 == load_next(stage, reply),
        step.1@ == load_script(stage, reply, size as int),
{
    let mut script: Vec<LoadEffect> = Vec::new();
    let next: LoadStage = match (stage, reply) {
        (LoadStage::Opening, LoadReply::Made(made)) => if made {
            LoadStage::Decoding
        } else {
            LoadStage::Done(false)
        },
        (LoadStage::Decoding, LoadReply::Made(made)) => if made {
            LoadStage::Measuring
        } else {
            LoadStage::Done(false)
        },
        (LoadStage::Measuring, LoadReply::Dimensions(width, height)) => {
            match crop_square(width, height) {
                None => {
                    script.push(LoadEffect::DisposeImage);
                    LoadStage::Done(false)
                },
                Some(crop) => {
                    script.push(LoadEffect::AcquireScreen);
                    LoadStage::Rendering(crop)
                },
            }
        },
        (LoadStage::Rendering(crop), LoadReply::Made(made)) => {
            if made {
                script.push(LoadEffect::CreateMemory);
                script.push(LoadEffect::SelectRender);
                LoadStage::Drawing(crop)
            } else {
                script.push(LoadEffect::ReleaseScreen);
                script.push(LoadEffect::DisposeImage);
                LoadStage::Done(false)
            }
        },
        (LoadStage::Drawing(crop), LoadReply::Made(made)) => {
            if made {
                script.push(LoadEffect::Draw(crop, size * 2));
                script.push(LoadEffect::DeleteGraphics);
            }
            script.push(LoadEffect::DisposeImage);
            script.push(LoadEffect::ApplyMask);
            LoadStage::Finishing
        },
        (LoadStage::Finishing, LoadReply::Made(made)) => {
            if made {
                script.push(LoadEffect::Downsample);
            }
            script.push(LoadEffect::RestoreSelection);
            script.push(LoadEffect::DeleteMemory);
            script.push(LoadEffect::DeleteRender);
            script.push(LoadEffect::ReleaseScreen);
            LoadStage::Done(made)
        },
        _ => stage,
    };
    proof {
        assert(script@ =~= load_script(stage, reply, size as int));
    }
    (next, script)
}

/// What a load can hold of the system.
pub enum Resource {
    Image,
    Screen,
    Render,
    Memory,
    /// The render bitmap is selected into the memory context.
    Selection,
    Graphics,
    Bubble,
}

/// What a reply puts into the hands of the load.
pub open spec fn gained(stage: LoadStage, reply: LoadReply) -> Set<Resource> {
    match (stage, reply) {
        (LoadStage::Decoding, LoadReply::Made(true)) => set![Resource::Image],
        (LoadStage::Rendering(_), LoadReply::Made(true)) => set![Resource::Render],
        (LoadStage::Drawing(_), LoadReply::Made(true)) => set![Resource::Graphics],
        (LoadStage::Finishing, LoadReply::Made(true)) => set![Resource::Bubble],
        _ => set![],
    }
}

/// An effect is in order only if what it uses or gives back is held, and what it
/// takes is not held already.
pub open spec fn in_order(held: Set<Resource>, effect: LoadEffect) -> bool {
    match effect {
        LoadEffect::AcquireScreen => !held.contains(Resource::Screen),
        LoadEffect::ReleaseScreen => held.contains(Resource::Screen),
        LoadEffect::CreateMemory => held.contains(Resource::Screen) && !held.contains(
            Resource::Memory,
        ),
        LoadEffect::DeleteMemory => held.contains(Resource::Memory) && !held.contains(
            Resource::Selection,
        ),
        LoadEffect::SelectRender => held.contains(Resource::Memory) && held.contains(
            Resource::Render,
        ) && !held.contains(Resource::Selection),
        LoadEffect::RestoreSelection => held.contains(Resource::Memory) && held.contains(
            Resource::Selection,
        ),
        LoadEffect::DeleteRender => held.contains(Resource::Render) && !held.contains(
            Resource::Selection,
        ),
        LoadEffect::Draw(_, _) => held.contains(Resource::Graphics) && held.contains(
            Resource::Image,
        ),
        LoadEffect::DeleteGraphics => held.contains(Resource::Graphics),
        LoadEffect::DisposeImage => held.contains(Resource::Image),
        LoadEffect::ApplyMask => held.contains(Resource::Render),
        LoadEffect::Downsample => held.contains(Resource::Render) && held.contains(
            Resource::Bubble,
        ),
    }
}

/// What is held after an effect.
pub open spec fn held_after(held: Set<Resource>, effect: LoadEffect) -> Set<Resource> {
    match effect {
        LoadEffect::AcquireScreen => held.insert(Resource::Screen),
        LoadEffect::ReleaseScreen => held.remove(Resource::Screen),
        LoadEffect::CreateMemory => held.insert(Resource::Memory),
        LoadEffect::DeleteMemory => held.remove(Resource::Memory),
        LoadEffect::SelectRender => held.insert(Resource::Selection),
        LoadEffect::RestoreSelection => held.remove(Resource::Selection),
        LoadEffect::DeleteRender => held.remove(Resource::Render),
        LoadEffect::DeleteGraphics => held.remove(Resource::Graphics),
        LoadEffect::DisposeImage => held.remove(Resource::Image),
        LoadEffect::Draw(_, _) | LoadEffect::ApplyMask | LoadEffect::Downsample => held,
    }
}

/// What is held after a script, if every effect of it is in order.
pub open spec fn run_script(held: Set<Resource>, script: Seq<LoadEffect>) -> Option<
    Set<Resource>,
>
    decreases script.len(),
{
    if script.len() == 0 {
        Some(held)
    } else if !in_order(held, script[0]) {
        None
    } else {
        run_script(held_after(held, script[0]), script.drop_first())
    }
}

/// What is held at a stage and after all the replies that follow, if everything
/// on the way is in order.
pub open spec fn run_load(
    stage: LoadStage,
    held: Set<Resource>,
    replies: Seq<LoadReply>,
    size: int,
) -> Option<(LoadStage, Set<Resource>)>
    decreases replies.len(),
{
    if replies.len() == 0 {
        Some((stage, held))
    } else {
        match run_script(
            held.union(gained(stage, replies[0])),
            load_script(stage, replies[0], size),
        ) {
            None => None,
            Some(after) => run_load(
                load_next(stage, replies[0]),
                after,
                replies.drop_first(),
                size,
            ),
        }
    }
}

/// What a load holds while it waits at a stage.
pub open spec fn held_at(stage: LoadStage) -> Set<Resource> {
    match stage {
        LoadStage::Opening | LoadStage::Decoding => set![],
        LoadStage::Measuring => set![Resource::Image],
        LoadStage::Rendering(_) => set![Resource::Image, Resource::Screen],
        LoadStage::Drawing(_) => set![
            Resource::Image,
            Resource::Screen,
            Resource::Render,
            Resource::Memory,
            Resource::Selection,
        ],
        LoadStage::Finishing => set![
            Resource::Screen,
            Resource::Render,
            Resource::Memory,
            Resource::Selection,
        ],
        LoadStage::Done(made) => if made {
            set![Resource::Bubble]
        } else {
            set![]
        },
    }
}

proof fn lemma_step_accounts(stage: LoadStage, reply: LoadReply, size: int)
    ensures
        run_script(held_at(stage).union(gained(stage, reply)), load_script(stage, reply, size))
            == Some(held_at(load_next(stage, reply))),
{
    reveal_with_fuel(run_script, 7);
    let held = held_at(stage).union(gained(stage, reply));
    let script = load_script(stage, reply, size);
    let end = run_script(held, script);
    assert(end is Some);
    assert(end->0 =~= held_at(load_next(stage, reply)));
}

/// Whatever the system answers, a load uses and gives back only what it holds, and
/// takes nothing twice. What it holds depends on the stage alone: nothing at all
/// once it has failed, and nothing but the finished bitmap once it has succeeded.
pub proof fn lemma_load_leaks_nothing(replies: Seq<LoadReply>, size: int)
    ensures
        run_load(LoadStage::Opening, set![], replies, size) matches Some((stage, held)) && held
            == held_at(stage) && (stage == LoadStage::Done(false) ==> held == Set::<
            Resource,
        >::empty()) && (stage == LoadStage::Done(true) ==> held == set![Resource::Bubble]),
{
    lemma_load_from(LoadStage::Opening, replies, size);
}

proof fn lemma_load_from(stage: LoadStage, replies: Seq<LoadReply>, size: int)
    ensures
        run_load(stage, held_at(stage), replies, size) matches Some((last, held)) && held
            == held_at(last),
    decreases replies.len(),
{
    if replies.len() > 0 {
        lemma_step_accounts(stage, replies[0], size);
        lemma_load_from(load_next(stage, replies[0]), replies.drop_first(), size);
    }
}

/// How many replies a load still needs at most.
pub open spec fn replies_left(stage: LoadStage) -> nat {
    match stage {
        LoadStage::Opening => 6,
        LoadStage::Decoding => 5,
        LoadStage::Measuring => 4,
        LoadStage::Rendering(_) => 3,
        LoadStage::Drawing(_) => 2,
        LoadStage::Finishing => 1,
        LoadStage::Done(_) => 0,
    }
}

/// A load ends: every reply that answers its query brings the end nearer.
pub proof fn lemma_load_ends(stage: LoadStage, reply: LoadReply)
    requires
        load_answers(stage, reply),
    ensures
        replies_left(load_next(stage, reply)) < replies_left(stage),
{
}

/// A system in which a bitmap is made: what can be had there, and the icon.
pub struct Studio {
    pub stream: bool,
    pub image: bool,
    pub width: u32,
    pub height: u32,
    pub render: bool,
    pub surface: bool,
    pub bitmap: bool,
}

impl Studio {
    /// What the system answers.
    pub open spec fn answer(self, query: LoadQuery) -> LoadReply {
        match query {
            LoadQuery::OpenStream => LoadReply::Made(self.stream),
            LoadQuery::DecodeImage => LoadReply::Made(self.image),
            LoadQuery::ReadDimensions => LoadReply::Dimensions(self.width, self.height),
            LoadQuery::CreateRender(_) => LoadReply::Made(self.render),
            LoadQuery::CreateGraphics => LoadReply::Made(self.surface),
            LoadQuery::CreateFinal(_) => LoadReply::Made(self.bitmap),
            LoadQuery::Nothing => LoadReply::Made(false),
        }
    }
}

/// What happened in the course of a load.
pub struct LoadCourse {
    /// Where it stopped.
    pub stage: LoadStage,
    pub asked: Seq<LoadQuery>,
    pub effects: Seq<LoadEffect>,
}

/// Walks a load, asking the system.
pub open spec fn drive_load(s: Studio, stage: LoadStage, size: int, fuel: nat) -> LoadCourse
    decreases fuel,
{
    if fuel == 0 || stage is Done || !size_fits(stage, size) {
        LoadCourse { stage, asked: seq![], effects: seq![] }
    } else {
        let query = load_query(stage, size);
        let reply = s.answer(query);
        let rest = drive_load(s, load_next(stage, reply), size, (fuel - 1) as nat);
        LoadCourse {
            asked: seq![query] + rest.asked,
            effects: load_script(stage, reply, size) + rest.effects,
            ..rest
        }
    }
}

proof fn lemma_drive_rendering(s: Studio, crop: Crop, size: int)
    requires
        -0x4000_0000 < size < 0x4000_0000,
    ensures
        ({
            let c = drive_load(s, LoadStage::Rendering(crop), size, 3);
            let twice = Dib {
                width: (2 * size) as i32,
                height: (-2 * size) as i32,
                planes: 1,
                bit_count: 32,
            };
            let once = Dib { width: size as i32, height: -size as i32, planes: 1, bit_count: 32 };
            &&& !s.render ==> {
                &&& c.stage == LoadStage::Done(false)
                &&& c.asked == seq![LoadQuery::CreateRender(twice)]
                &&& c.effects == seq![LoadEffect::ReleaseScreen, LoadEffect::DisposeImage]
            }
            &&& s.render ==> {
                &&& c.stage == LoadStage::Done(s.bitmap)
                &&& c.asked == seq![
                    LoadQuery::CreateRender(twice),
                    LoadQuery::CreateGraphics,
                    LoadQuery::CreateFinal(once),
                ]
                &&& c.effects == seq![LoadEffect::CreateMemory, LoadEffect::SelectRender]
                    + drawn(s, crop, twice) + seq![LoadEffect::DisposeImage, LoadEffect::ApplyMask]
                    + taken_down(s)
            }
        }),
{
    reveal_with_fuel(drive_load, 4);
    let c = drive_load(s, LoadStage::Rendering(crop), size, 3);
    let twice = Dib {
        width: (2 * size) as i32,
        height: (-2 * size) as i32,
        planes: 1,
        bit_count: 32,
    };
    if s.render {
        assert(c.effects =~= seq![LoadEffect::CreateMemory, LoadEffect::SelectRender] + drawn(
            s,
            crop,
            twice,
        ) + seq![LoadEffect::DisposeImage, LoadEffect::ApplyMask] + taken_down(s));
        assert(c.asked.len() == 3);
    } else {
        assert(c.effects =~= seq![LoadEffect::ReleaseScreen, LoadEffect::DisposeImage]);
    }
}

/// The crop drawn over the whole of the double-size bitmap, if it has a surface.
pub open spec fn drawn(s: Studio, crop: Crop, render: Dib) -> Seq<LoadEffect> {
    if s.surface {
        seq![LoadEffect::Draw(crop, render.width), LoadEffect::DeleteGraphics]
    } else {
        seq![]
    }
}

/// The finished bitmap filled, if there is one, and all the rest given back.
pub open spec fn taken_down(s: Studio) -> Seq<LoadEffect> {
    (if s.bitmap {
        seq![LoadEffect::Downsample]
    } else {
        seq![]
    }) + seq![
        LoadEffect::RestoreSelection,
        LoadEffect::DeleteMemory,
        LoadEffect::DeleteRender,
        LoadEffect::ReleaseScreen,
    ]
}

/// What a load comes to. Where everything can be had, the centred square of the icon is
/// drawn at twice the size of the bubble, masked there, and only then halved into the
/// bitmap; both bitmaps run from top to bottom with four bytes per pixel. What cannot be
/// had ends the load without a bitmap, save for the drawing surface: without it the bitmap
/// stays blank. Nothing is asked after the end.
pub proof fn lemma_load_course(s: Studio, size: int)
    requires
        -0x4000_0000 < size < 0x4000_0000,
    ensures
        ({
            let c = drive_load(s, LoadStage::Opening, size, 6);
            let crop = crop_of(s.width, s.height);
            let twice = Dib {
                width: (2 * size) as i32,
                height: (-2 * size) as i32,
                planes: 1,
                bit_count: 32,
            };
            let once = Dib { width: size as i32, height: -size as i32, planes: 1, bit_count: 32 };
            let measured = seq![
                LoadQuery::OpenStream,
                LoadQuery::DecodeImage,
                LoadQuery::ReadDimensions,
            ];
            &&& c.stage == LoadStage::Done(
                s.stream && s.image && s.width > 0 && s.height > 0 && s.render && s.bitmap,
            )
            &&& !s.stream ==> c.asked == seq![LoadQuery::OpenStream] && c.effects == Seq::<
                LoadEffect,
            >::empty()
            &&& s.stream && !s.image ==> c.asked == seq![
                LoadQuery::OpenStream,
                LoadQuery::DecodeImage,
            ] && c.effects == Seq::<LoadEffect>::empty()
            &&& s.stream && s.image && (s.width == 0 || s.height == 0) ==> c.asked == measured
                && c.effects == seq![LoadEffect::DisposeImage]
            &&& s.stream && s.image && s.width > 0 && s.height > 0 && !s.render ==> c.asked
                == measured + seq![LoadQuery::CreateRender(twice)] && c.effects == seq![
                LoadEffect::AcquireScreen,
                LoadEffect::ReleaseScreen,
                LoadEffect::DisposeImage,
            ]
            &&& s.stream && s.image && s.width > 0 && s.height > 0 && s.render ==> c.asked
                == measured + seq![
                LoadQuery::CreateRender(twice),
                LoadQuery::CreateGraphics,
                LoadQuery::CreateFinal(once),
            ] && c.effects == seq![
                LoadEffect::AcquireScreen,
                LoadEffect::CreateMemory,
                LoadEffect::SelectRender,
            ] + drawn(s, crop, twice) + seq![LoadEffect::DisposeImage, LoadEffect::ApplyMask]
                + taken_down(s)
        }),
{
    reveal_with_fuel(drive_load, 2);
    let crop = crop_of(s.width, s.height);
    lemma_drive_rendering(s, crop, size);
    let tail = drive_load(s, LoadStage::Rendering(crop), size, 3);
    let c = drive_load(s, LoadStage::Opening, size, 6);
    let decoding = drive_load(s, LoadStage::Decoding, size, 5);
    let measuring = drive_load(s, LoadStage::Measuring, size, 4);
    if s.width > 0 && s.height > 0 {
        assert(measuring.asked =~= seq![LoadQuery::ReadDimensions] + tail.asked);
        assert(measuring.effects =~= seq![LoadEffect::AcquireScreen] + tail.effects);
    } else {
        assert(measuring.asked =~= seq![LoadQuery::ReadDimensions]);
        assert(measuring.effects =~= seq![LoadEffect::DisposeImage]);
    }
    if s.image {
        assert(decoding.asked =~= seq![LoadQuery::DecodeImage] + measuring.asked);
        assert(decoding.effects =~= measuring.effects);
    } else {
        assert(decoding.asked =~= seq![LoadQuery::DecodeImage]);
        assert(decoding.effects =~= seq![]);
    }
    if s.stream {
        assert(c.asked =~= seq![LoadQuery::OpenStream] + decoding.asked);
        assert(c.effects =~= decoding.effects);
    } else {
        assert(c.asked =~= seq![LoadQuery::OpenStream]);
        assert(c.effects =~= seq![]);
    }
}

/// Dimensions answer the measuring and nothing else, and nothing answers a load that is
/// over; a reply that is no answer changes nothing. A size can be worked on at the start
/// whatever it is, and later exactly if its double and the negative of it are in range.
pub proof fn lemma_load_heeds_answers_only(
    stage: LoadStage,
    made: bool,
    width: u32,
    height: u32,
    size: int,
)
    ensures
        ({
            let dimensions = LoadReply::Dimensions(width, height);
            &&& !(stage is Measuring) ==> load_next(stage, dimensions) == stage && load_script(
                stage,
                dimensions,
                size,
            ) == Seq::<LoadEffect>::empty()
            &&& stage is Measuring || stage is Done ==> load_next(stage, LoadReply::Made(made))
                == stage && load_script(stage, LoadReply::Made(made), size) == Seq::<
                LoadEffect,
            >::empty()
        }),
        stage is Opening || stage is Decoding || stage is Measuring || stage is Done ==> size_fits(
            stage,
            size,
        ),
        stage is Rendering || stage is Drawing || stage is Finishing ==> (size_fits(stage, size)
            <==> -0x4000_0000 < size < 0x4000_0000),
{
}

} // verus!
