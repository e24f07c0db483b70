//! Which animation an actor shows and which frame of it: the state that the
//! rules select and a renderer draws.

use vstd::prelude::*;
use crate::search::{first_index, lemma_first_index, lemma_first_index_is, lemma_first_index_none};

verus! {

/// One animation of a sprite sheet: how many frames it has, on which row of
/// the sheet they lie, and whether it starts over at its end.
#[derive(Clone, Copy, Debug, PartialEq, Eq, Structural)]
pub struct AnimationInfo {
    pub len: usize,
    pub row: usize,
    pub looped: bool,
}

/// The animation state of one actor.
#[derive(Clone, Debug)]
pub struct AnimationTimer {
    /// The set of animations that the actor draws from.
    pub library: String,
    /// The animation that plays.
    pub current_animation: String,
    /// The frame of it that shows.
    pub current_frame: usize,
    /// The animation to go on with when this one ends, if any.
    pub next: Option<String>,
    /// Whether the frame is to be drawn again at once.
    pub update_now: bool,
}

/// The name held in an optional string, as a sequence of characters.
pub open spec fn name_of(name: Option<String>) -> Option<Seq<char>> {
    match name {
        Some(s) => Some(s@),
        None => None,
    }
}

/// An `AnimationTimer` as plain values.
pub struct AnimationView {
    pub library: Seq<char>,
    pub current_animation: Seq<char>,
    pub current_frame: int,
    pub next: Option<Seq<char>>,
    pub update_now: bool,
}

impl AnimationView {
    /// The state after `play(animation, transition)`: the animation starts
    /// at its first frame, to be drawn at once.
    pub open spec fn played(self, animation: Seq<char>, transition: Option<Seq<char>>) -> AnimationView {
        AnimationView {
            current_animation: animation,
            current_frame: 0,
            next: transition,
            update_now: true,
            ..self
        }
    }

    /// The state after `next_frame(info)`.
    ///
    /// The frame moves on by one and wraps at the end of the animation. When
    /// it wraps from a later frame, the animation to go on with takes over
    /// from its first frame; without one, an animation that does not loop
    /// holds its last frame.
    pub open spec fn stepped(self, info: AnimationInfo) -> AnimationView
        recommends
            info.len > 0,
    {
        let wrapped = (self.current_frame + 1) % (info.len as int);
        if wrapped == 0 && self.current_frame != 0 {
            match self.next {
                Some(following) => AnimationView {
                    current_animation: following,
                    current_frame: 0,
                    next: None,
                    update_now: false,
                    ..self
                },
                None => if info.looped {
                    AnimationView { current_frame: 0, ..self }
                } else {
                    self
                },
            }
        } else {
            AnimationView { current_frame: wrapped, ..self }
        }
    }
}

impl View for AnimationTimer {
    type V = AnimationView;

    open spec fn view(&self) -> AnimationView {
        AnimationView {
            library: self.library@,
            current_animation: self.current_animation@,
            current_frame: self.current_frame as int,
            next: name_of(self.next),
            update_now: self.update_now,
        }
    }
}

impl Default for AnimationTimer {
    /// No library, no animation, first frame.
    fn default() -> (t: AnimationTimer)
        ensures
            t@ == (AnimationView {
                library: Seq::<char>::empty(),
                current_animation: Seq::<char>::empty(),
                current_frame: 0,
                next: None,
                update_now: false,
            }),
    {
        AnimationTimer {
            library: String::new(),
            current_animation: String::new(),
            current_frame: 0,
            next: None,
            update_now: false,
        }
    }
}

impl AnimationTimer {
    /// The state of an actor that draws from `library` and starts with
    /// `animation`.
    pub fn new(library: String, animation: String) -> (t: AnimationTimer)
        ensures
            t@ == (AnimationView {
                library: library@,
                current_animation: animation@,
                current_frame: 0,
                next: None,
                update_now: false,
            }),
    {
        AnimationTimer {
            library,
            current_animation: animation,
            current_frame: 0,
            next: None,
            update_now: false,
        }
    }

    /// Starts `animation` from its first frame, to be drawn at once, and
    /// notes the animation to go on with when it ends.
    pub fn play(&mut self, animation: String, transition: Option<String>)
        ensures
            final(self)@ == old(self)@.played(animation@, name_of(transition)),
    {
        self.current_animation = animation;
        self.current_frame = 0;
        self.next = transition;
        self.update_now = true;
    }

    /// Moves on by one frame, as `AnimationView::stepped` describes.
    pub fn next_frame(&mut self, info: &AnimationInfo)
        requires
            info.len > 0,
            old(self).current_frame < usize::MAX,
        ensures
            final(self)@ == old(self)@.stepped(*info),
    {
        let old_frame = self.current_frame;
        self.current_frame = (self.current_frame + 1) % info.len;
        if self.current_frame == 0 && old_frame != 0 {
            match self.next.take() {
                Some(following) => {
                    self.play(following, None);
                    self.update_now = false;
                },
                None => {
                    if !info.looped {
                        self.current_frame = old_frame;
                    }
                },
            }
        }
    }
}

/// The place of a frame on a sprite sheet that is `width` frames wide,
/// counted row by row.
pub fn index(column: usize, row: usize, width: usize) -> (i: usize)
    requires
        row * width + column <= usize::MAX,
    ensures
        i == row * width + column,
{
    proof {
        assert(row * width <= row * width + column);
    }
    row * width + column
}

/// The animations of one sprite sheet, by name, and how many frames wide
/// the sheet is.
#[derive(Clone, Debug)]
pub struct AnimationLibrary {
    pub key: String,
    pub animations: Vec<(String, AnimationInfo)>,
    pub max_width: usize,
}

/// All animations, by library and by name. Where a key or a name occurs
/// more than once, the first counts.
#[derive(Clone, Debug)]
pub struct Animations {
    pub atlases: Vec<AnimationLibrary>,
}

/// The place of the library with the key `key`.
pub open spec fn library_at(atlases: Seq<AnimationLibrary>, key: Seq<char>) -> Option<int> {
    first_index(atlases, |l: AnimationLibrary| l.key@ == key)
}

/// The place of the animation with the name `name`.
pub open spec fn animation_at(animations: Seq<(String, AnimationInfo)>, name: Seq<char>) -> Option<int> {
    first_index(animations, |a: (String, AnimationInfo)| a.0@ == name)
}

fn find_library(atlases: &Vec<AnimationLibrary>, key: &String) -> (found: Option<usize>)
    ensures
        found is Some <==> library_at(atlases@, key@) is Some,
        found matches Some(k) ==> library_at(atlases@, key@) == Some(k as int) && k < atlases@.len()
            && atlases@[k as int].key@ == key@,
{
    let ghost p = |l: AnimationLibrary| l.key@ == key@;
    let mut i: usize = 0;
    while i < atlases.len()
        invariant
            i <= atlases.len(),
            p == (|l: AnimationLibrary| l.key@ == key@),
            forall|j: int| 0 <= j < i ==> !p(#[trigger] atlases@[j]),
        decreases atlases.len() - i,
    {
        if atlases[i].key == *key {
            proof {
                lemma_first_index_is(atlases@, p, i as int);
            }
            return Some(i);
        }
        i += 1;
    }
    proof {
        lemma_first_index_none(atlases@, p);
    }
    None
}

fn find_animation(animations: &Vec<(String, AnimationInfo)>, name: &String) -> (found: Option<usize>)
    ensures
        found is Some <==> animation_at(animations@, name@) is Some,
        found matches Some(k) ==> animation_at(animations@, name@) == Some(k as int) && k
            < animations@.len() && animations@[k as int].0@ == name@,
{
    let ghost p = |a: (String, AnimationInfo)| a.0@ == name@;
    let mut i: usize = 0;
    while i < animations.len()
        invariant
            i <= animations.len(),
            p == (|a: (String, AnimationInfo)| a.0@ == name@),
            forall|j: int| 0 <= j < i ==> !p(#[trigger] animations@[j]),
        decreases animations.len() - i,
    {
        if animations[i].0 == *name {
            proof {
                lemma_first_index_is(animations@, p, i as int);
            }
            return Some(i);
        }
        i += 1;
    }
    proof {
        lemma_first_index_none(animations@, p);
    }
    None
}

/// The width of the sheet of the library `key` among `atlases`.
pub open spec fn width_in(atlases: Seq<AnimationLibrary>, key: Seq<char>) -> Option<usize> {
    match library_at(atlases, key) {
        Some(k) => Some(atlases[k].max_width),
        None => None,
    }
}

/// The animation `name` among `animations`.
pub open spec fn info_among(animations: Seq<(String, AnimationInfo)>, name: Seq<char>) -> Option<
    AnimationInfo,
> {
    match animation_at(animations, name) {
        Some(a) => Some(animations[a].1),
        None => None,
    }
}

/// The animation `name` of the library `key` among `atlases`.
pub open spec fn info_in(atlases: Seq<AnimationLibrary>, key: Seq<char>, name: Seq<char>) -> Option<
    AnimationInfo,
> {
    match library_at(atlases, key) {
        Some(k) => info_among(atlases[k].animations@, name),
        None => None,
    }
}

proof fn lemma_animation_replaced(
    before: Seq<(String, AnimationInfo)>,
    after: Seq<(String, AnimationInfo)>,
    a: int,
)
    requires
        0 <= a < before.len(),
        after.len() == before.len(),
        animation_at(before, before[a].0@) == Some(a),
        forall|j: int| 0 <= j < before.len() ==> (#[trigger] after[j]).0@ == before[j].0@,
        forall|j: int| 0 <= j < before.len() && j != a ==> (#[trigger] after[j]).1 == before[j].1,
    ensures
        forall|n: Seq<char>| #[trigger]
            info_among(after, n) == if n == before[a].0@ {
                Some(after[a].1)
            } else {
                info_among(before, n)
            },
{
    assert forall|n: Seq<char>| #[trigger]
        info_among(after, n) == if n == before[a].0@ {
            Some(after[a].1)
        } else {
            info_among(before, n)
        } by {
        let q = |x: (String, AnimationInfo)| x.0@ == n;
        lemma_first_index(before, q);
        match first_index(before, q) {
            Some(i) => {
                assert(q(after[i]));
                assert forall|j: int| 0 <= j < i implies !q(#[trigger] after[j]) by {
                    assert(!q(before[j]));
                }
                lemma_first_index_is(after, q, i);
            },
            None => {
                assert forall|j: int| 0 <= j < after.len() implies !q(#[trigger] after[j]) by {
                    assert(!q(before[j]));
                }
                lemma_first_index_none(after, q);
            },
        }
    }
}

proof fn lemma_animation_added(before: Seq<(String, AnimationInfo)>, after: Seq<(String, AnimationInfo)>)
    requires
        after.len() == before.len() + 1,
        after.drop_last() == before,
        animation_at(before, after.last().0@) is None,
    ensures
        forall|n: Seq<char>| #[trigger]
            info_among(after, n) == if n == after.last().0@ {
                Some(after.last().1)
            } else {
                info_among(before, n)
            },
{
    assert forall|n: Seq<char>| #[trigger]
        info_among(after, n) == if n == after.last().0@ {
            Some(after.last().1)
        } else {
            info_among(before, n)
        } by {
        let q = |x: (String, AnimationInfo)| x.0@ == n;
        lemma_first_index(before, q);
        match first_index(before, q) {
            Some(i) => {
                assert(after[i] == before[i]);
            },
            None => {},
        }
    }
}

proof fn lemma_library_added(
    before: Seq<AnimationLibrary>,
    after: Seq<AnimationLibrary>,
    name: Seq<char>,
    info: AnimationInfo,
)
    requires
        after.len() == before.len() + 1,
        after.drop_last() == before,
        library_at(before, after.last().key@) is None,
        after.last().animations@.len() == 1,
        after.last().animations@[0].0@ == name,
        after.last().animations@[0].1 == info,
    ensures
        forall|k: Seq<char>, n: Seq<char>| #[trigger]
            info_in(after, k, n) == if k == after.last().key@ && n == name {
                Some(info)
            } else {
                info_in(before, k, n)
            },
        forall|k: Seq<char>| #[trigger]
            width_in(after, k) == if k == after.last().key@ {
                Some(after.last().max_width)
            } else {
                width_in(before, k)
            },
{
    let key = after.last().key@;
    let one = after.last().animations@;
    assert forall|k: Seq<char>| #[trigger]
        library_at(after, k) == if k == key {
            Some(before.len() as int)
        } else {
            library_at(before, k)
        } by {
        let p = |l: AnimationLibrary| l.key@ == k;
        lemma_first_index(before, p);
        match first_index(before, p) {
            Some(i) => {
                assert(after[i] == before[i]);
            },
            None => {},
        }
    }
    assert forall|k: Seq<char>, n: Seq<char>| #[trigger]
        info_in(after, k, n) == if k == key && n == name {
            Some(info)
        } else {
            info_in(before, k, n)
        } by {
        assert(library_at(after, k) == if k == key {
            Some(before.len() as int)
        } else {
            library_at(before, k)
        });
        let q = |x: (String, AnimationInfo)| x.0@ == n;
        if n == name {
            lemma_first_index_is(one, q, 0);
        } else {
            lemma_first_index_none(one, q);
        }
        match library_at(before, k) {
            Some(i) => {
                let p = |l: AnimationLibrary| l.key@ == k;
                lemma_first_index(before, p);
                assert(after[i] == before[i]);
            },
            None => {},
        }
    }
    assert forall|k: Seq<char>| #[trigger]
        width_in(after, k) == if k == key {
            Some(after.last().max_width)
        } else {
            width_in(before, k)
        } by {
        assert(library_at(after, k) == if k == key {
            Some(before.len() as int)
        } else {
            library_at(before, k)
        });
        match library_at(before, k) {
            Some(i) => {
                let p = |l: AnimationLibrary| l.key@ == k;
                lemma_first_index(before, p);
                assert(after[i] == before[i]);
            },
            None => {},
        }
    }
}

proof fn lemma_library_changed(
    before: Seq<AnimationLibrary>,
    after: Seq<AnimationLibrary>,
    i: int,
    name: Seq<char>,
    info: AnimationInfo,
)
    requires
        0 <= i < before.len(),
        after.len() == before.len(),
        library_at(before, before[i].key@) == Some(i),
        after[i].key@ == before[i].key@,
        after[i].max_width == before[i].max_width,
        forall|j: int| 0 <= j < before.len() && j != i ==> #[trigger] after[j] == before[j],
        forall|n: Seq<char>| #[trigger]
            info_among(after[i].animations@, n) == if n == name {
                Some(info)
            } else {
                info_among(before[i].animations@, n)
            },
    ensures
        forall|k: Seq<char>, n: Seq<char>| #[trigger]
            info_in(after, k, n) == if k == before[i].key@ && n == name {
                Some(info)
            } else {
                info_in(before, k, n)
            },
        forall|k: Seq<char>| #[trigger] width_in(after, k) == width_in(before, k),
{
    assert forall|k: Seq<char>| #[trigger] library_at(after, k) == library_at(before, k) by {
        let p = |l: AnimationLibrary| l.key@ == k;
        lemma_first_index(before, p);
        match first_index(before, p) {
            Some(f) => {
                assert(after[f].key@ == before[f].key@);
                assert forall|j: int| 0 <= j < f implies !p(#[trigger] after[j]) by {
                    assert(after[j].key@ == before[j].key@);
                    assert(!p(before[j]));
                }
                lemma_first_index_is(after, p, f);
            },
            None => {
                assert forall|j: int| 0 <= j < after.len() implies !p(#[trigger] after[j]) by {
                    assert(after[j].key@ == before[j].key@);
                    assert(!p(before[j]));
                }
                lemma_first_index_none(after, p);
            },
        }
    }
    assert forall|k: Seq<char>, n: Seq<char>| #[trigger]
        info_in(after, k, n) == if k == before[i].key@ && n == name {
            Some(info)
        } else {
            info_in(before, k, n)
        } by {
        assert(library_at(after, k) == library_at(before, k));
        let p = |l: AnimationLibrary| l.key@ == k;
        lemma_first_index(before, p);
        match library_at(before, k) {
            Some(f) => {
                if f != i {
                    assert(after[f] == before[f]);
                }
            },
            None => {},
        }
    }
    assert forall|k: Seq<char>| #[trigger] width_in(after, k) == width_in(before, k) by {
        assert(library_at(after, k) == library_at(before, k));
        match library_at(before, k) {
            Some(f) => {
                let p = |l: AnimationLibrary| l.key@ == k;
                lemma_first_index(before, p);
                if f != i {
                    assert(after[f] == before[f]);
                }
            },
            None => {},
        }
    }
}

impl Default for Animations {
    /// No animations.
    fn default() -> (a: Animations)
        ensures
            a.atlases@.len() == 0,
    {
        Animations { atlases: Vec::new() }
    }
}

impl Animations {
    /// The width of the sheet of the library `key`, if there is one.
    pub open spec fn width_of(self, key: Seq<char>) -> Option<usize> {
        width_in(self.atlases@, key)
    }

    /// The animation `name` of the library `key`, if there is one.
    pub open spec fn info_of(self, key: Seq<char>, name: Seq<char>) -> Option<AnimationInfo> {
        info_in(self.atlases@, key, name)
    }

    /// Notes the animation `name` of the library `key`.
    ///
    /// A library that is not there yet is made, with a sheet `max_width`
    /// frames wide; one that is there keeps its width. An animation of that
    /// name that the library has already is replaced. Everything else stays
    /// as it is.
    pub fn new_animation(&mut self, key: String, name: String, info: AnimationInfo, max_width: usize)
        ensures
            forall|k: Seq<char>, n: Seq<char>| #[trigger]
                final(self).info_of(k, n) == if k == key@ && n == name@ {
                    Some(info)
                } else {
                    old(self).info_of(k, n)
                },
            forall|k: Seq<char>| #[trigger]
                final(self).width_of(k) == if k == key@ && old(self).width_of(k) is None {
                    Some(max_width)
                } else {
                    old(self).width_of(k)
                },
    {
        let ghost before = self.atlases@;
        match find_library(&self.atlases, &key) {
            None => {
                let mut animations: Vec<(String, AnimationInfo)> = Vec::new();
                animations.push((name, info));
                self.atlases.push(AnimationLibrary { key, animations, max_width });
                proof {
                    assert(self.atlases@.drop_last() =~= before);
                    lemma_library_added(before, self.atlases@, name@, info);
                }
            },
            Some(k) => {
                let ghost library = self.atlases@[k as int].animations@;
                match find_animation(&self.atlases[k].animations, &name) {
                    Some(a) => {
                        self.atlases[k].animations[a].1 = info;
                        proof {
                            lemma_animation_replaced(library, self.atlases@[k as int].animations@, a as int);
                        }
                    },
                    None => {
                        self.atlases[k].animations.push((name, info));
                        proof {
                            assert(self.atlases@[k as int].animations@.drop_last() =~= library);
                            lemma_animation_added(library, self.atlases@[k as int].animations@);
                        }
                    },
                }
                proof {
                    lemma_library_changed(before, self.atlases@, k as int, name@, info);
                }
            },
        }
    }

    /// The width of the sheet of the library `key`, if there is one.
    pub fn get_layout_width(&self, key: String) -> (width: Option<usize>)
        ensures
            width == self.width_of(key@),
    {
        match find_library(&self.atlases, &key) {
            Some(k) => Some(self.atlases[k].max_width),
            None => None,
        }
    }

    /// The animation `name` of the library `key`, if there is one.
    pub fn get_animation(&self, key: String, name: String) -> (info: Option<&AnimationInfo>)
        ensures
            info is Some <==> self.info_of(key@, name@) is Some,
            info matches Some(i) ==> self.info_of(key@, name@) == Some(*i),
    {
        let k = match find_library(&self.atlases, &key) {
            Some(k) => k,
            None => {
                return None;
            },
        };
        match find_animation(&self.atlases[k].animations, &name) {
            Some(a) => Some(&self.atlases[k].animations[a].1),
            None => None,
        }
    }
}

/// How a sprite sheet is cut into frames: the size of a frame in pixels,
/// and how many frames lie side by side and one above the other.
#[derive(Clone, Copy, Debug, PartialEq, Eq, Structural)]
pub struct AtlasGrid {
    pub tile_width: u32,
    pub tile_height: u32,
    pub columns: u32,
    pub rows: u32,
}

/// Whether `animation` can be moved on by `animate_sprite`: the animation
/// that plays is known and has frames, the frame that shows is one of them,
/// and the place of no frame on the sheet is out of range.
pub open spec fn can_animate(animation: AnimationView, animations: Animations) -> bool {
    match (
        animations.info_of(animation.library, animation.current_animation),
        animations.width_of(animation.library),
    ) {
        (Some(info), Some(width)) => {
            &&& info.len > 0
            &&& animation.current_frame < info.len
            &&& info.row * width + info.len <= usize::MAX
        },
        _ => false,
    }
}

/// Whether `animation` can be moved on by `animate_sprite`.
pub fn is_animated(animation: &AnimationTimer, animations: &Animations) -> (b: bool)
    ensures
        b == can_animate(animation@, *animations),
{
    let info = match animations.get_animation(animation.library.clone(), animation.current_animation.clone()) {
        Some(info) => *info,
        None => {
            return false;
        },
    };
    let width = match animations.get_layout_width(animation.library.clone()) {
        Some(width) => width,
        None => {
            return false;
        },
    };
    if info.len == 0 || animation.current_frame >= info.len {
        return false;
    }
    match info.row.checked_mul(width) {
        Some(start) => start.checked_add(info.len).is_some(),
        None => {
            proof {
                assert(info.row * width + info.len > usize::MAX);
            }
            false
        },
    }
}

/// Moves the animation of a sprite on when it is due: when the timer of
/// its frames has just run out, or the animation asks to be drawn at once.
///
/// Returns the place on the sheet of the frame to show, counted row by row
/// on the row of the animation that played when the call was made; `None`
/// when nothing is due.
pub fn animate_sprite(animation: &mut AnimationTimer, animations: &Animations, timer_just_finished: bool) -> (shown:
    Option<usize>)
    requires
        timer_just_finished || old(animation).update_now ==> can_animate(old(animation)@, *animations),
    ensures
        !(timer_just_finished || old(animation).update_now) ==> shown is None && *final(animation) == *old(animation),
        timer_just_finished || old(animation).update_now ==> {
            let info = animations.info_of(
                old(animation)@.library,
                old(animation)@.current_animation,
            )->Some_0;
            let width = animations.width_of(old(animation)@.library)->Some_0;
            &&& final(animation)@ == (AnimationView { update_now: false, ..old(animation)@ }).stepped(info)
            &&& shown == Some((info.row * width + final(animation)@.current_frame) as usize)
        },
{
    if !(timer_just_finished || animation.update_now) {
        return None;
    }
    animation.update_now = false;
    let info = *animations.get_animation(animation.library.clone(), animation.current_animation.clone()).unwrap();
    animation.next_frame(&info);
    let width = animations.get_layout_width(animation.library.clone()).unwrap();
    proof {
        assert(info.row * width >= 0) by (nonlinear_arith)
            requires
                info.row >= 0,
                width >= 0,
        ;
    }
    Some(index(animation.current_frame, info.row, width))
}

/// Notes the animations of the cultist: walking, attacking, being in pain
/// and dying, one row each on a sheet eight frames wide. Returns how the
/// sheet is cut.
pub fn setup_enemy_atlas(animations: &mut Animations) -> (grid: AtlasGrid)
    ensures
        grid == (AtlasGrid { tile_width: 161, tile_height: 129, columns: 8, rows: 4 }),
        final(animations).info_of("Cultist"@, "walk"@) == Some(AnimationInfo { len: 6, row: 0, looped: true }),
        final(animations).info_of("Cultist"@, "attack"@) == Some(
            AnimationInfo { len: 2, row: 1, looped: true },
        ),
        final(animations).info_of("Cultist"@, "pain"@) == Some(AnimationInfo { len: 2, row: 2, looped: true }),
        final(animations).info_of("Cultist"@, "death"@) == Some(
            AnimationInfo { len: 8, row: 3, looped: false },
        ),
        final(animations).width_of("Cultist"@) == if old(animations).width_of("Cultist"@) is None {
            Some(8usize)
        } else {
            old(animations).width_of("Cultist"@)
        },
        forall|k: Seq<char>, n: Seq<char>|
            k != "Cultist"@ ==> #[trigger] final(animations).info_of(k, n) == old(animations).info_of(k, n),
        forall|k: Seq<char>|
            k != "Cultist"@ ==> #[trigger] final(animations).width_of(k) == old(animations).width_of(k),
{
    proof {
        reveal_strlit("walk");
        reveal_strlit("attack");
        reveal_strlit("pain");
        reveal_strlit("death");
        assert("walk"@[0] == 'w' && "attack"@[0] == 'a' && "pain"@[0] == 'p' && "death"@[0] == 'd');
    }
    animations.new_animation(
        "Cultist".to_owned(),
        "walk".to_owned(),
        AnimationInfo { len: 6, row: 0, looped: true },
        8,
    );
    animations.new_animation(
        "Cultist".to_owned(),
        "attack".to_owned(),
        AnimationInfo { len: 2, row: 1, looped: true },
        8,
    );
    animations.new_animation(
        "Cultist".to_owned(),
        "pain".to_owned(),
        AnimationInfo { len: 2, row: 2, looped: true },
        8,
    );
    animations.new_animation(
        "Cultist".to_owned(),
        "death".to_owned(),
        AnimationInfo { len: 8, row: 3, looped: false },
        8,
    );
    AtlasGrid { tile_width: 161, tile_height: 129, columns: 8, rows: 4 }
}

/// Notes the animation of the shotgun in the player's hands: firing, on a
/// sheet six frames wide. Returns how the sheet is cut.
pub fn setup_weapon_atlas(animations: &mut Animations) -> (grid: AtlasGrid)
    ensures
        grid == (AtlasGrid { tile_width: 279, tile_height: 133, columns: 6, rows: 1 }),
        final(animations).info_of("Shotgun"@, "fire"@) == Some(AnimationInfo { len: 6, row: 0, looped: true }),
        final(animations).width_of("Shotgun"@) == if old(animations).width_of("Shotgun"@) is None {
            Some(6usize)
        } else {
            old(animations).width_of("Shotgun"@)
        },
        forall|k: Seq<char>, n: Seq<char>|
            !(k == "Shotgun"@ && n == "fire"@) ==> #[trigger] final(animations).info_of(k, n) == old(animations).info_of(k, n),
        forall|k: Seq<char>|
            k != "Shotgun"@ ==> #[trigger] final(animations).width_of(k) == old(animations).width_of(k),
{
    animations.new_animation(
        "Shotgun".to_owned(),
        "fire".to_owned(),
        AnimationInfo { len: 6, row: 0, looped: true },
        6,
    );
    AtlasGrid { tile_width: 279, tile_height: 133, columns: 6, rows: 1 }
}

} // verus!
