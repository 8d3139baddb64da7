//! Keyboard navigation of the mixer: arrows and Home/End select a strip, with
//! the master strip first; the paging keys scroll.
use vstd::prelude::*;
use crate::document_wire::text_is;
use crate::document_ui::{is_name, position_of};
use crate::search::first_index;

verus! {

/// What a key does in the mixer.
#[derive(Debug)]
pub enum MixerKey {
    /// Not a mixer key.
    Ignored,
    /// Scroll the strips vertically by this many pixels.
    Scroll(i32),
    /// Select the strip with this id.
    Select(String),
}

pub open spec fn is_master(id: Seq<char>) -> bool {
    id == "mix_master"@
}

/// The ids whose master-ness is `master`, in their order.
pub open spec fn with_master(ids: Seq<String>, master: bool) -> Seq<String>
    decreases ids.len(),
{
    if ids.len() == 0 {
        Seq::empty()
    } else if is_master(ids.last()@) == master {
        with_master(ids.drop_last(), master).push(ids.last())
    } else {
        with_master(ids.drop_last(), master)
    }
}

/// The strips in navigation order: the master first, the others as listed.
pub open spec fn navigation_order(ids: Seq<String>) -> Seq<String> {
    with_master(ids, true) + with_master(ids, false)
}

pub proof fn lemma_with_master_len(ids: Seq<String>)
    ensures
        with_master(ids, true).len() + with_master(ids, false).len() == ids.len(),
    decreases ids.len(),
{
    if ids.len() > 0 {
        lemma_with_master_len(ids.drop_last());
    }
}

/// The strip a key moves to, from the selected one (or the first).
pub open spec fn navigation_target(order: Seq<String>, selected: Seq<char>, key: Seq<char>) -> Option<int> {
    let current = match first_index(order, is_name(selected)) {
        Some(i) => i,
        None => 0,
    };
    if key == "left"@ {
        Some(if current > 0 { current - 1 } else { 0 })
    } else if key == "right"@ {
        Some(if current + 1 < order.len() - 1 { current + 1 } else { order.len() - 1 })
    } else if key == "home"@ {
        Some(0)
    } else if key == "end"@ {
        Some(order.len() - 1)
    } else {
        None
    }
}

/// The keys that move the selection along the strips.
pub open spec fn is_navigation_key(key: Seq<char>) -> bool {
    key == "left"@ || key == "right"@ || key == "home"@ || key == "end"@
}

/// The scroll distance of a paging key.
pub open spec fn scroll_delta(key: Seq<char>) -> Option<i32> {
    if key == "up"@ { Some(28i32) }
    else if key == "down"@ { Some(-28i32) }
    else if key == "pageup"@ { Some(160i32) }
    else if key == "pagedown"@ { Some(-160i32) }
    else { None }
}

fn split_master(ids: &Vec<String>, master: bool) -> (part: Vec<String>)
    ensures
        part@ == with_master(ids@, master),
{
    proof { reveal_strlit("mix_master"); }
    let mut part: Vec<String> = Vec::new();
    let mut i: usize = 0;
    while i < ids.len()
        invariant
            i <= ids.len(),
            part@ == with_master(ids@.take(i as int), master),
        decreases ids.len() - i,
    {
        assert(ids@.take(i + 1).drop_last() =~= ids@.take(i as int));
        assert(ids@.take(i + 1).last() == ids@[i as int]);
        if text_is(&ids[i], "mix_master") == master {
            part.push(ids[i].clone());
        }
        i = i + 1;
    }
    assert(ids@.take(ids.len() as int) =~= ids@);
    part
}

/// Applies a key to the mixer, given its strips' ids and the selected scope.
pub fn mixer_key(strip_ids: &Vec<String>, selected: &String, key: &String) -> (action: MixerKey)
    requires
        is_navigation_key(key@) ==> strip_ids.len() > 0,
    ensures
        match action {
            MixerKey::Ignored => scroll_delta(key@) is None
                && navigation_target(navigation_order(strip_ids@), selected@, key@) is None,
            MixerKey::Scroll(delta) => scroll_delta(key@) == Some(delta),
            MixerKey::Select(id) => scroll_delta(key@) is None
                && (navigation_target(navigation_order(strip_ids@), selected@, key@) matches Some(i)
                && id == navigation_order(strip_ids@)[i]),
        },
{
    proof {
        reveal_strlit("up");
        reveal_strlit("down");
        reveal_strlit("pageup");
        reveal_strlit("pagedown");
        reveal_strlit("left");
        reveal_strlit("right");
        reveal_strlit("home");
        reveal_strlit("end");
    }
    if text_is(key, "up") { return MixerKey::Scroll(28); }
    if text_is(key, "down") { return MixerKey::Scroll(-28); }
    if text_is(key, "pageup") { return MixerKey::Scroll(160); }
    if text_is(key, "pagedown") { return MixerKey::Scroll(-160); }
    let mut order = split_master(strip_ids, true);
    let mut others = split_master(strip_ids, false);
    proof { lemma_with_master_len(strip_ids@); }
    order.append(&mut others);
    assert(order@ == navigation_order(strip_ids@));
    let len = order.len();
    let current = match position_of(&order, selected) {
        Some(i) => i,
        None => 0,
    };
    proof {
        if let Some(i) = first_index(order@, is_name(selected@)) {
            assert(i < len) by {
                assert(crate::search::is_first(order@, is_name(selected@), i)) by {
                    let k = choose|k: int| crate::search::is_first(order@, is_name(selected@), k);
                }
            }
        }
    }
    let next = if text_is(key, "left") {
        if current > 0 { current - 1 } else { 0 }
    } else if text_is(key, "right") {
        if current + 1 < len - 1 { current + 1 } else { len - 1 }
    } else if text_is(key, "home") {
        0
    } else if text_is(key, "end") {
        len - 1
    } else {
        return MixerKey::Ignored;
    };
    MixerKey::Select(order[next].clone())
}

/// The arrow keys move one strip along the navigation order, Home and End go
/// to its ends: from the strip at position `i` (the first with the selected
/// id), left selects position `i - 1` (staying on the first strip), right
/// selects `i + 1` (staying on the last), Home the first and End the last.
pub proof fn lemma_arrows_move_one_strip(ids: Seq<String>, selected: Seq<char>, i: int)
    requires
        0 <= i < navigation_order(ids).len(),
        navigation_order(ids)[i]@ == selected,
        forall|j: int| 0 <= j < i ==> (#[trigger] navigation_order(ids)[j])@ != selected,
    ensures
        navigation_target(navigation_order(ids), selected, "left"@) == Some(if i > 0 { i - 1 } else { 0 }),
        navigation_target(navigation_order(ids), selected, "right"@)
            == Some(if i + 1 < navigation_order(ids).len() { i + 1 } else { i }),
        navigation_target(navigation_order(ids), selected, "home"@) == Some(0int),
        navigation_target(navigation_order(ids), selected, "end"@) == Some(navigation_order(ids).len() - 1),
{
    let order = navigation_order(ids);
    assert forall|j: int| 0 <= j < i implies !is_name(selected)(#[trigger] order[j]) by {}
    crate::search::lemma_first_found(order, is_name(selected), i);
    lemma_keys_differ();
}

/// With no strip of the selected id, navigation starts from the first strip.
pub proof fn lemma_arrows_from_unknown_selection(ids: Seq<String>, selected: Seq<char>)
    requires
        navigation_order(ids).len() > 0,
        forall|j: int| 0 <= j < navigation_order(ids).len() ==> (#[trigger] navigation_order(ids)[j])@ != selected,
    ensures
        navigation_target(navigation_order(ids), selected, "left"@) == Some(0int),
        navigation_target(navigation_order(ids), selected, "right"@)
            == Some(if 1 < navigation_order(ids).len() { 1int } else { 0 }),
{
    let order = navigation_order(ids);
    assert forall|j: int| 0 <= j < order.len() implies !is_name(selected)(#[trigger] order[j]) by {}
    crate::search::lemma_first_absent(order, is_name(selected));
    lemma_keys_differ();
}

proof fn lemma_keys_differ()
    ensures
        "left"@ != "right"@,
        "left"@ != "home"@,
        "left"@ != "end"@,
        "right"@ != "home"@,
        "right"@ != "end"@,
        "home"@ != "end"@,
{
    reveal_strlit("left");
    reveal_strlit("right");
    reveal_strlit("home");
    reveal_strlit("end");
    assert("left"@[0] != "right"@[0]);
    assert("left"@[0] != "home"@[0]);
    assert("left"@[0] != "end"@[0]);
    assert("right"@[0] != "home"@[0]);
    assert("right"@[0] != "end"@[0]);
    assert("home"@[0] != "end"@[0]);
}

/// The navigation order puts the master strips first and the others after,
/// each part in listed order: the part of the master strips is exactly the
/// listed ids that are the master, and the other part exactly the others.
pub proof fn lemma_navigation_order_parts(ids: Seq<String>)
    ensures
        forall|k: int| 0 <= k < with_master(ids, true).len() ==> is_master((#[trigger] with_master(ids, true)[k])@),
        forall|k: int| 0 <= k < with_master(ids, false).len() ==> !is_master((#[trigger] with_master(ids, false)[k])@),
        navigation_order(ids).len() == ids.len(),
        (forall|k: int| 0 <= k < ids.len() ==> !is_master((#[trigger] ids[k])@)) ==> with_master(ids, true).len() == 0
            && with_master(ids, false) == ids && navigation_order(ids) == ids,
    decreases ids.len(),
{
    lemma_with_master_len(ids);
    if ids.len() > 0 {
        let init = ids.drop_last();
        lemma_navigation_order_parts(init);
        if forall|k: int| 0 <= k < ids.len() ==> !is_master((#[trigger] ids[k])@) {
            assert forall|k: int| 0 <= k < init.len() implies !is_master((#[trigger] init[k])@) by {
                assert(init[k] == ids[k]);
            }
            assert(!is_master(ids[ids.len() - 1]@));
            assert(ids =~= init.push(ids.last()));
            assert(with_master(ids, false) =~= ids);
            assert(navigation_order(ids) =~= with_master(ids, false));
        }
    }
}

} // verus!
