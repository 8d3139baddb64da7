//! What the playlist shows while a placement is dragged: the placements as
//! they will be once the drop is accepted, keeping each placement's content.
//! Positions and lengths are in ticks of 1/960 beat.
use vstd::prelude::*;
use crate::search::{first_index, lemma_first_absent, lemma_first_found};
use crate::text::push_str;

verus! {

/// Ticks in one beat.
pub const TICKS_PER_BEAT: u64 = 960;

/// What a placement plays.
#[derive(Clone, Copy, Debug, PartialEq, Eq)]
pub enum ResourceKind {
    Pattern,
    Sample,
}

/// A placement in the playlist.
#[derive(Clone, Debug)]
pub struct Clip {
    pub kind: ResourceKind,
    pub id: String,
    pub resource: String,
    pub track: String,
    pub start: u64,
    pub length: u64,
    pub enabled: bool,
}

/// What a drag does to its placement.
#[derive(Clone, Copy, Debug, PartialEq, Eq)]
pub enum DragMode {
    Move,
    Copy,
    Resize,
}

/// A drag in the playlist: of an existing placement (`clip`, with its id and
/// the position it was listed at), or of a resource from the library
/// (`clip` is `None`), towards a track and start tick (`target`).
#[derive(Clone, Debug)]
pub struct Drag {
    pub mode: DragMode,
    pub kind: ResourceKind,
    pub resource: String,
    pub clip: Option<(String, usize)>,
    pub length: u64,
    pub target: Option<(String, u64)>,
    pub moved: bool,
}

/// The id under which a copy is shown until the service names it.
pub open spec fn copy_id(id: Seq<char>) -> Seq<char> {
    "copy:"@ + id
}

/// The id under which a library resource is shown until the service places it.
pub open spec fn insert_id(resource: Seq<char>) -> Seq<char> {
    "new:"@ + resource
}

pub open spec fn is_clip_id(id: Seq<char>) -> spec_fn(Clip) -> bool {
    |clip: Clip| clip.id@ == id
}

/// The projection of a drag onto the placements: a drag without a target shows
/// the placements unchanged; a move places the dragged placement on the target
/// track and tick; a copy adds a copy there and keeps the dragged placement; a resize
/// gives the placement the drag's length; a library resource appears at the
/// target with the drag's length. A drag of a placement that is not listed
/// changes nothing.
pub open spec fn projected(clips: Seq<Clip>, drag: Option<Drag>, result: Seq<Clip>) -> bool {
    match drag {
        None => result == clips,
        Some(d) => match d.target {
            None => result == clips,
            Some((track, start)) => match d.clip {
                None => {
                    &&& result.len() == clips.len() + 1
                    &&& result.take(clips.len() as int) == clips
                    &&& result.last().kind == d.kind
                    &&& result.last().id@ == insert_id(d.resource@)
                    &&& result.last().resource == d.resource
                    &&& result.last().track == track
                    &&& result.last().start == start
                    &&& result.last().length == d.length
                    &&& result.last().enabled
                },
                Some((id, _)) => match first_index(clips, is_clip_id(id@)) {
                    None => result == clips,
                    Some(i) => match d.mode {
                        DragMode::Move => result == clips.update(i, Clip { track, start, ..clips[i] }),
                        DragMode::Resize => result == clips.update(i, Clip { length: d.length, ..clips[i] }),
                        DragMode::Copy => {
                            &&& result.len() == clips.len() + 1
                            &&& result.take(clips.len() as int) == clips
                            &&& result.last().id@ == copy_id(clips[i].id@)
                            &&& result.last().track == track
                            &&& result.last().start == start
                            &&& result.last().kind == clips[i].kind
                            &&& result.last().resource == clips[i].resource
                            &&& result.last().length == clips[i].length
                            &&& result.last().enabled == clips[i].enabled
                        },
                    },
                },
            },
        },
    }
}

fn find_clip(clips: &Vec<Clip>, id: &String) -> (found: Option<usize>)
    ensures
        match found {
            Some(i) => first_index(clips@, is_clip_id(id@)) == Some(i as int) && i < clips.len(),
            None => first_index(clips@, is_clip_id(id@)) is None,
        },
{
    let ghost p = is_clip_id(id@);
    let mut i: usize = 0;
    while i < clips.len()
        invariant
            i <= clips.len(),
            p == is_clip_id(id@),
            forall|j: int| 0 <= j < i ==> !p(#[trigger] clips@[j]),
        decreases clips.len() - i,
    {
        if clips[i].id.eq(id) {
            proof { lemma_first_found(clips@, p, i as int); }
            return Some(i);
        }
        i = i + 1;
    }
    proof { lemma_first_absent(clips@, p); }
    None
}

fn prefixed(prefix: &str, text: &String) -> (id: String)
    ensures
        id@ == prefix@ + text@,
{
    let mut id = String::from_str(prefix);
    push_str(&mut id, text.as_str());
    id
}

/// The placements as the playlist shows them during a drag.
pub fn project(clips: Vec<Clip>, drag: Option<&Drag>) -> (shown: Vec<Clip>)
    ensures
        projected(clips@, match drag { Some(d) => Some(*d), None => None }, shown@),
{
    proof {
        reveal_strlit("copy:");
        reveal_strlit("new:");
    }
    let d = match drag {
        Some(d) => d,
        None => { return clips; },
    };
    let (track, start) = match &d.target {
        Some((track, start)) => (track, *start),
        None => { return clips; },
    };
    let mut shown = clips;
    let ghost listed = shown@;
    match &d.clip {
        None => {
            shown.push(Clip {
                kind: d.kind,
                id: prefixed("new:", &d.resource),
                resource: d.resource.clone(),
                track: track.clone(),
                start,
                length: d.length,
                enabled: true,
            });
            assert(shown@.take(listed.len() as int) =~= listed);
        },
        Some((id, _)) => {
            let index = match find_clip(&shown, id) {
                Some(i) => i,
                None => { return shown; },
            };
            match d.mode {
                DragMode::Move => {
                    let source = &shown[index];
                    let moved = Clip {
                        kind: source.kind,
                        id: source.id.clone(),
                        resource: source.resource.clone(),
                        track: track.clone(),
                        start,
                        length: source.length,
                        enabled: source.enabled,
                    };
                    shown.set(index, moved);
                },
                DragMode::Resize => {
                    let source = &shown[index];
                    let resized = Clip {
                        kind: source.kind,
                        id: source.id.clone(),
                        resource: source.resource.clone(),
                        track: source.track.clone(),
                        start: source.start,
                        length: d.length,
                        enabled: source.enabled,
                    };
                    shown.set(index, resized);
                },
                DragMode::Copy => {
                    let source = &shown[index];
                    let copy = Clip {
                        kind: source.kind,
                        id: prefixed("copy:", &source.id),
                        resource: source.resource.clone(),
                        track: track.clone(),
                        start,
                        length: source.length,
                        enabled: source.enabled,
                    };
                    shown.push(copy);
                    assert(shown@.take(listed.len() as int) =~= listed);
                },
            }
        },
    }
    shown
}

/// A drag never changes what a placement plays: every placement shown plays
/// the resource of a listed placement, or the dragged library resource.
pub proof fn lemma_projection_keeps_content(clips: Seq<Clip>, drag: Drag, shown: Seq<Clip>, k: int)
    requires
        projected(clips, Some(drag), shown),
        0 <= k < shown.len(),
    ensures
        (exists|j: int| 0 <= j < clips.len() && clips[j].resource == shown[k].resource)
            || (drag.clip is None && shown[k].resource == drag.resource),
{
    if k < clips.len() {
        if shown.len() == clips.len() + 1 {
            assert(shown.take(clips.len() as int)[k] == shown[k]);
        }
        assert(clips[k].resource == shown[k].resource);
    } else {
        match drag.clip {
            Some((id, _)) => {
                let i = first_index(clips, is_clip_id(id@)).unwrap();
                assert(0 <= i < clips.len()) by {
                    let j = choose|j: int| crate::search::is_first(clips, is_clip_id(id@), j);
                }
                assert(clips[i].resource == shown[k].resource);
            },
            None => {},
        }
    }
}

/// A move shows exactly as many placements as before; a copy and a library
/// drop show one more.
pub proof fn lemma_projection_count(clips: Seq<Clip>, drag: Drag, shown: Seq<Clip>)
    requires
        projected(clips, Some(drag), shown),
        drag.target is Some,
    ensures
        drag.mode != DragMode::Copy && drag.clip is Some ==> shown.len() == clips.len(),
        drag.clip is None ==> shown.len() == clips.len() + 1,
{
}

} // verus!
