use oxitone_preview::analysis::{NodeAnalysis, NoteEcho};

fn echo(frame: u64, pitch: u8, on: bool, epoch: u64) -> NoteEcho {
    NoteEcho { frame, pitch, on, epoch }
}

#[test]
fn notes_sound_once_their_frame_is_audible() {
    let mut node = NodeAnalysis::new();
    node.update_notes(&vec![echo(10, 60, true, 0), echo(20, 100, true, 0)], 0, 15, 0, true);
    assert!(node.sounding(60));
    assert!(!node.sounding(100), "still ahead of the audible frame");
    node.update_notes(&vec![echo(30, 60, false, 0)], 0, 25, 0, true);
    assert!(node.sounding(60));
    assert!(node.sounding(100));
    node.update_notes(&vec![], 0, 30, 0, true);
    assert!(!node.sounding(60));
}

#[test]
fn a_seek_or_lost_echoes_restart_the_notes() {
    let mut node = NodeAnalysis::new();
    node.update_notes(&vec![echo(1, 64, true, 0), echo(50, 65, true, 0)], 0, 5, 0, true);
    assert!(node.sounding(64));
    node.update_notes(&vec![echo(60, 65, true, 0), echo(2, 66, true, 1)], 0, 100, 1, true);
    assert!(!node.sounding(64), "old epoch forgotten");
    assert!(!node.sounding(65), "echoes of the old epoch are dropped");
    assert!(node.sounding(66));
    node.update_notes(&vec![], 3, 100, 1, true);
    assert!(!node.sounding(66), "dropped echoes reset the state");
    assert_eq!(node.dropped, 3);
}

#[test]
fn nothing_sounds_while_stopped() {
    let mut node = NodeAnalysis::new();
    node.update_notes(&vec![echo(0, 127, true, 0), echo(0, 0, true, 0)], 0, 0, 0, false);
    assert!(!node.sounding(127));
    assert!(!node.sounding(0));
}

#[test]
fn pitches_use_both_words() {
    let mut node = NodeAnalysis::new();
    node.update_notes(&vec![echo(0, 0, true, 0), echo(0, 63, true, 0), echo(0, 64, true, 0), echo(0, 127, true, 0)], 0, 0, 0, true);
    for pitch in [0, 63, 64, 127] {
        assert!(node.sounding(pitch));
    }
    for pitch in [1, 62, 65, 126] {
        assert!(!node.sounding(pitch));
    }
    assert_eq!(node.active, [1 | 1 << 63, 1 | 1 << 63]);
}
