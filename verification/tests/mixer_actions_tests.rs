use oxitone_preview::mixer_actions::{mixer_key, MixerKey};

fn strips() -> Vec<String> {
    ["chn_keys", "chn_bass", "mix_master", "mix_music"].iter().map(|s| s.to_string()).collect()
}

fn select(selected: &str, key: &str) -> String {
    match mixer_key(&strips(), &selected.to_string(), &key.to_string()) {
        MixerKey::Select(id) => id,
        other => panic!("selection expected, got {other:?}"),
    }
}

#[test]
fn the_master_comes_first_in_navigation() {
    assert_eq!(select("chn_keys", "left"), "mix_master");
    assert_eq!(select("mix_master", "left"), "mix_master");
    assert_eq!(select("mix_master", "right"), "chn_keys");
    assert_eq!(select("chn_bass", "right"), "mix_music");
    assert_eq!(select("mix_music", "right"), "mix_music");
    assert_eq!(select("chn_bass", "home"), "mix_master");
    assert_eq!(select("chn_bass", "end"), "mix_music");
    assert_eq!(select("unknown", "right"), "chn_keys", "an unknown selection starts at the first strip");
}

#[test]
fn paging_keys_scroll_and_others_are_ignored() {
    let s = strips();
    let sel = "chn_keys".to_string();
    assert!(matches!(mixer_key(&s, &sel, &"up".to_string()), MixerKey::Scroll(28)));
    assert!(matches!(mixer_key(&s, &sel, &"pagedown".to_string()), MixerKey::Scroll(-160)));
    assert!(matches!(mixer_key(&s, &sel, &"tab".to_string()), MixerKey::Ignored));
}

#[test]
fn an_empty_mixer_still_scrolls_and_ignores_other_keys() {
    let none: Vec<String> = Vec::new();
    let selected = "chn_keys".to_string();
    assert!(matches!(mixer_key(&none, &selected, &"pagedown".to_string()), MixerKey::Scroll(-160)));
    assert!(matches!(mixer_key(&none, &selected, &"up".to_string()), MixerKey::Scroll(28)));
    assert!(matches!(mixer_key(&none, &selected, &"enter".to_string()), MixerKey::Ignored));
}
