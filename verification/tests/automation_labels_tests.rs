use oxitone_preview::automation_labels::{
    base, Bus, Channel, EffectRef, InsertParameter, LaneTarget, ParameterSpec, PluginInfo, TargetLabel,
    ViewProject,
};

fn effect(plugin_id: &str, name: &str, instance: Option<&str>) -> EffectRef {
    EffectRef {
        instance_id: instance.map(|id| id.to_string()),
        plugin_id: plugin_id.into(),
        plugin_version: "1.0.0".into(),
        plugin_name: name.into(),
    }
}

/// A project with one unnamed channel playing the built-in wavetable.
fn project() -> ViewProject {
    ViewProject {
        id: "prj_view".into(),
        channels: vec![Channel {
            id: "chn_keys".into(),
            name: None,
            instrument: effect("oxitone.wavetable", "Wavetable", None),
            effect_chain: vec![],
        }],
        mixer_channels: vec![],
        sample_clips: vec![],
        plugins: vec![PluginInfo {
            plugin_id: "oxitone.wavetable".into(),
            plugin_version: "1.0.0".into(),
            parameters: vec![ParameterSpec { id: "level".into(), label: "Level".into() }],
        }],
    }
}

/// A lane as the parameter parsers describe it.
fn lane(entity: &str, parameter: &str) -> LaneTarget {
    let channel_parameter = ["level", "pan", "mute", "solo", "enabled"].contains(&parameter);
    let insert = parameter.strip_prefix("insert.").and_then(|rest| {
        let (index, rest) = rest.split_once('.')?;
        let index = index.parse().ok()?;
        Some((
            index,
            match rest {
                "mix" => InsertParameter::Mix,
                "bypass" => InsertParameter::Bypass,
                other => InsertParameter::Plugin(other.strip_prefix("parameter.")?.to_string()),
            },
        ))
    });
    let send_destination = parameter
        .strip_prefix("send.")
        .and_then(|rest| rest.strip_suffix(".ratio"))
        .map(|destination| destination.to_string());
    LaneTarget {
        entity_id: entity.into(),
        parameter_id: parameter.into(),
        effect_host: false,
        channel_parameter,
        insert,
        send_destination,
    }
}

fn host_lane(entity: &str, parameter: &str) -> LaneTarget {
    LaneTarget { effect_host: true, ..lane(entity, parameter) }
}

#[test]
fn channel_and_instrument_targets_keep_their_distinct_namespaces() {
    let mut p = project();
    p.channels[0].name = Some("Keys".into());
    p.channels[0].instrument.instance_id = Some("ins_keys".into());
    let channel = p.automation_target(&lane("chn_keys", "level"));
    let instrument = p.automation_target(&lane("ins_keys", "level"));
    assert_eq!(channel.owner, "Keys");
    assert_eq!(channel.parameter, "Volume");
    assert_eq!(channel.device, None);
    assert_eq!(instrument.device.as_deref(), Some("Wavetable"));
    assert_ne!(channel.key, instrument.key);
    assert_eq!(p.automation_label(&lane("chn_keys", "pan")), "Pan — Keys");
    assert_eq!(p.automation_target(&lane("prj_view", "tempo")).parameter, "Tempo");
}

#[test]
fn repeated_external_effects_use_descriptor_labels_and_follow_reordering() {
    let mut p = project();
    let mut info = p.plugins[0].clone();
    info.plugin_id = "vendor.texture".into();
    info.parameters[0].id = "grain.blurAmount".into();
    info.parameters[0].label = "Grain diffusion".into();
    p.plugins.push(info);
    p.channels[0].effect_chain = ["ins_first", "ins_second"]
        .map(|id| effect("vendor.texture", "Texture", Some(id)))
        .into();
    let target = lane("ins_first", "grain.blurAmount");
    let before = p.automation_target(&target);
    assert_eq!(before.parameter, "Grain diffusion");
    assert_eq!(before.device.as_deref(), Some("1 Texture"));
    assert_eq!(before, p.automation_target(&lane("chn_keys", "insert.0.parameter.grain.blurAmount")));
    assert_ne!(before.key, p.automation_target(&lane("ins_second", "grain.blurAmount")).key);
    assert_eq!(p.automation_target(&host_lane("ins_first", "mix")).parameter, "Dry / wet");
    p.channels[0].effect_chain.swap(0, 1);
    let after = p.automation_target(&target);
    assert_eq!(before.key, after.key);
    assert_eq!(after.device.as_deref(), Some("2 Texture"));
}

#[test]
fn bus_sends_and_unnamed_entities_have_musical_context() {
    let mut p = project();
    p.mixer_channels = vec![
        Bus { id: "mix_music".into(), name: Some("Music".into()), inserts: vec![] },
        Bus { id: "mix_reverb".into(), name: Some("Reverb".into()), inserts: vec![] },
    ];
    assert_eq!(
        p.automation_target(&lane("mix_music", "send.mix_reverb.ratio")).parameter,
        "Send to Reverb"
    );
    assert_eq!(p.automation_target(&lane("mix_music", "balance")).owner, "Music");
    assert_eq!(p.automation_target(&lane("chn_keys", "level")).owner, "Channel 1");
}

#[test]
fn unclaimed_lanes_fall_back_to_clips_master_project_and_automation() {
    let mut p = project();
    p.sample_clips = vec!["clip_a".into(), "clip_b".into()];
    let clip = p.automation_target(&lane("clip_b", "rate"));
    assert_eq!(clip.owner, "Audio clip 2");
    assert_eq!(clip.parameter, "Playback rate");
    assert_eq!(p.automation_target(&lane("mix_master", "level")).owner, "Master");
    assert_eq!(p.automation_target(&lane("prj_view", "swing")).owner, "Project");
    let other = p.automation_target(&lane("elsewhere", "custom"));
    assert_eq!(other.owner, "Automation");
    assert_eq!(other.parameter, "custom");
    assert_eq!(other.key, "elsewhere");
}

#[test]
fn unnamed_buses_and_unlisted_send_destinations() {
    let mut p = project();
    p.mixer_channels = vec![
        Bus { id: "mix_a".into(), name: None, inserts: vec![effect("vendor.texture", "Texture", None)] },
        Bus { id: "mix_master".into(), name: None, inserts: vec![] },
    ];
    let a = p.automation_target(&lane("mix_a", "send.mix_gone.ratio"));
    assert_eq!(a.owner, "Bus 1");
    assert_eq!(a.parameter, "Send to Master");
    assert_eq!(p.automation_target(&lane("mix_master", "level")).owner, "Master");
    let slot = p.automation_target(&lane("mix_a", "insert.0.bypass"));
    assert_eq!(slot.parameter, "Bypass");
    assert_eq!(slot.key, "insert:mix_a:0");
    assert_eq!(slot.device.as_deref(), Some("1 Texture"));
}

#[test]
fn base_labels_name_builtin_parameters_and_context_joins_device() {
    let label = base(&"chn".to_string(), "Keys".into(), &"masterSendRatio".to_string());
    assert_eq!(label.parameter, "Master send");
    assert_eq!(label.context(), "Keys");
    let with_device = TargetLabel { device: Some("Wavetable".into()), ..label };
    assert_eq!(with_device.context(), "Keys / Wavetable");
    assert_eq!(with_device.text(), "Master send — Keys / Wavetable");
    for (id, name) in [("balance", "Balance"), ("mute", "Mute"), ("gain", "Gain"), ("tone", "Tone"), ("odd", "odd")] {
        assert_eq!(base(&"x".to_string(), "o".into(), &id.to_string()).parameter, name);
    }
}

#[test]
fn plugin_parameter_labels_fall_back_to_the_id() {
    let p = project();
    let wavetable = "oxitone.wavetable".to_string();
    let version = "1.0.0".to_string();
    assert_eq!(p.plugin_parameter_label(&wavetable, &version, &"level".to_string()), "Level");
    assert_eq!(p.plugin_parameter_label(&wavetable, &version, &"cutoff".to_string()), "cutoff");
    assert_eq!(p.plugin_parameter_label(&wavetable, &"2.0.0".to_string(), &"level".to_string()), "level");
}

#[test]
fn lane_navigation_offers_each_target_once_in_first_order() {
    let label = |key: &str| TargetLabel { key: key.into(), owner: "o".into(), device: None, parameter: "p".into() };
    let labels = vec![label("chn"), label("ins"), label("chn"), label("bus"), label("ins")];
    assert_eq!(oxitone_preview::automation_labels::distinct_targets(&labels), vec![0, 1, 3]);
    assert!(oxitone_preview::automation_labels::distinct_targets(&vec![]).is_empty());
}

#[test]
fn plugin_labels_are_read_under_id_and_version() {
    let mut p = project();
    let mut newer = p.plugins[0].clone();
    newer.plugin_version = "2.0.0".into();
    newer.parameters[0].label = "Output level".into();
    p.plugins.push(newer);
    let id = "oxitone.wavetable".to_string();
    let level = "level".to_string();
    assert_eq!(p.plugin_parameter_label(&id, &"2.0.0".to_string(), &level), "Output level");
    assert_eq!(p.plugin_parameter_label(&id, &"1.0.0".to_string(), &level), "Level");
    assert_eq!(p.plugin_parameter_label(&id, &"3.0.0".to_string(), &level), "level");
    assert_eq!(p.plugin_parameter_label(&id, &"2.0.0".to_string(), &"cutoff".to_string()), "cutoff");
}
