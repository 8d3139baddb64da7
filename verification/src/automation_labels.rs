//! Musical target names shared by the curve editor, Browser and Playlist.
use vstd::prelude::*;
use crate::document_wire::text_is;
use crate::search::{first_index, is_first, lemma_first_absent, lemma_first_found};
use crate::text::{decimal, push_decimal, push_str};

verus! {

/// Who an automation lane controls, named for musicians.
#[derive(Clone, Debug, PartialEq, Eq)]
pub struct TargetLabel {
    pub key: String,
    pub owner: String,
    pub device: Option<String>,
    pub parameter: String,
}

/// A target label as text.
pub struct LabelModel {
    pub key: Seq<char>,
    pub owner: Seq<char>,
    pub device: Option<Seq<char>>,
    pub parameter: Seq<char>,
}

impl View for TargetLabel {
    type V = LabelModel;

    open spec fn view(&self) -> LabelModel {
        LabelModel {
            key: self.key@,
            owner: self.owner@,
            device: match self.device {
                Some(d) => Some(d@),
                None => None,
            },
            parameter: self.parameter@,
        }
    }
}

/// The owner, followed by " / " and the device when there is one.
pub open spec fn label_context(label: LabelModel) -> Seq<char> {
    match label.device {
        Some(device) => label.owner + " / "@ + device,
        None => label.owner,
    }
}

/// The parameter, then " — " and the context.
pub open spec fn label_text(label: LabelModel) -> Seq<char> {
    label.parameter + " — "@ + label_context(label)
}

impl TargetLabel {
    pub fn context(&self) -> (context: String)
        ensures
            context@ == label_context(self@),
    {
        proof { reveal_strlit(" / "); }
        match &self.device {
            Some(device) => {
                let mut context = self.owner.clone();
                push_str(&mut context, " / ");
                push_str(&mut context, device.as_str());
                context
            },
            None => self.owner.clone(),
        }
    }

    /// The label as one line: parameter, then context.
    pub fn text(&self) -> (text: String)
        ensures
            text@ == label_text(self@),
    {
        proof { reveal_strlit(" — "); }
        let mut text = self.parameter.clone();
        push_str(&mut text, " — ");
        let context = self.context();
        push_str(&mut text, context.as_str());
        text
    }
}

/// The musical name of a built-in parameter; other parameters keep their id.
pub open spec fn parameter_name(parameter: Seq<char>) -> Seq<char> {
    if parameter == "level"@ { "Volume"@ }
    else if parameter == "pan"@ { "Pan"@ }
    else if parameter == "balance"@ { "Balance"@ }
    else if parameter == "mute"@ { "Mute"@ }
    else if parameter == "swing"@ { "Swing"@ }
    else if parameter == "tempo"@ { "Tempo"@ }
    else if parameter == "masterSendRatio"@ { "Master send"@ }
    else if parameter == "gain"@ { "Gain"@ }
    else if parameter == "tone"@ { "Tone"@ }
    else if parameter == "rate"@ { "Playback rate"@ }
    else { parameter }
}

/// The label of an entity without a device.
pub open spec fn base_label(key: Seq<char>, owner: Seq<char>, parameter: Seq<char>) -> LabelModel {
    LabelModel { key, owner, device: None, parameter: parameter_name(parameter) }
}

fn name_of(parameter: &String) -> (name: String)
    ensures
        name@ == parameter_name(parameter@),
{
    proof {
        reveal_strlit("level"); reveal_strlit("Volume");
        reveal_strlit("pan"); reveal_strlit("Pan");
        reveal_strlit("balance"); reveal_strlit("Balance");
        reveal_strlit("mute"); reveal_strlit("Mute");
        reveal_strlit("swing"); reveal_strlit("Swing");
        reveal_strlit("tempo"); reveal_strlit("Tempo");
        reveal_strlit("masterSendRatio"); reveal_strlit("Master send");
        reveal_strlit("gain"); reveal_strlit("Gain");
        reveal_strlit("tone"); reveal_strlit("Tone");
        reveal_strlit("rate"); reveal_strlit("Playback rate");
    }
    if text_is(parameter, "level") { String::from_str("Volume") }
    else if text_is(parameter, "pan") { String::from_str("Pan") }
    else if text_is(parameter, "balance") { String::from_str("Balance") }
    else if text_is(parameter, "mute") { String::from_str("Mute") }
    else if text_is(parameter, "swing") { String::from_str("Swing") }
    else if text_is(parameter, "tempo") { String::from_str("Tempo") }
    else if text_is(parameter, "masterSendRatio") { String::from_str("Master send") }
    else if text_is(parameter, "gain") { String::from_str("Gain") }
    else if text_is(parameter, "tone") { String::from_str("Tone") }
    else if text_is(parameter, "rate") { String::from_str("Playback rate") }
    else { parameter.clone() }
}

/// The label of an entity without a device: its key, its owner, and the
/// musical name of the parameter.
pub fn base(key: &String, owner: String, parameter: &String) -> (label: TargetLabel)
    ensures
        label@ == base_label(key@, owner@, parameter@),
{
    TargetLabel { key: key.clone(), owner, device: None, parameter: name_of(parameter) }
}

// ----- targets of the rendered project -----

/// A plugin instance: its ids and the display name of its plugin.
#[derive(Clone, Debug)]
pub struct EffectRef {
    pub instance_id: Option<String>,
    pub plugin_id: String,
    pub plugin_version: String,
    pub plugin_name: String,
}

/// An instrument channel with its instrument and effect chain.
#[derive(Clone, Debug)]
pub struct Channel {
    pub id: String,
    pub name: Option<String>,
    pub instrument: EffectRef,
    pub effect_chain: Vec<EffectRef>,
}

/// A mixer bus with its inserts.
#[derive(Clone, Debug)]
pub struct Bus {
    pub id: String,
    pub name: Option<String>,
    pub inserts: Vec<EffectRef>,
}

/// A parameter a plugin publishes, with its label.
#[derive(Clone, Debug)]
pub struct ParameterSpec {
    pub id: String,
    pub label: String,
}

/// The published parameters of one plugin version.
#[derive(Clone, Debug)]
pub struct PluginInfo {
    pub plugin_id: String,
    pub plugin_version: String,
    pub parameters: Vec<ParameterSpec>,
}

/// What the naming of automation targets reads of the rendered project.
#[derive(Clone, Debug)]
pub struct ViewProject {
    pub id: String,
    pub channels: Vec<Channel>,
    pub mixer_channels: Vec<Bus>,
    pub sample_clips: Vec<String>,
    pub plugins: Vec<PluginInfo>,
}

/// A parameter of an insert slot, as an insert parameter id names it.
#[derive(Clone, Debug)]
pub enum InsertParameter {
    Mix,
    Bypass,
    Plugin(String),
}

/// The target of an automation lane, with what the parameter id says of itself:
/// whether it is a built-in channel parameter, which insert parameter it names,
/// and which bus a send-ratio parameter sends to.
#[derive(Clone, Debug)]
pub struct LaneTarget {
    pub entity_id: String,
    pub parameter_id: String,
    pub effect_host: bool,
    pub channel_parameter: bool,
    pub insert: Option<(usize, InsertParameter)>,
    pub send_destination: Option<String>,
}

pub open spec fn is_plugin(plugin_id: Seq<char>, version: Seq<char>) -> spec_fn(PluginInfo) -> bool {
    |info: PluginInfo| info.plugin_id@ == plugin_id && info.plugin_version@ == version
}

pub open spec fn is_parameter(parameter: Seq<char>) -> spec_fn(ParameterSpec) -> bool {
    |spec: ParameterSpec| spec.id@ == parameter
}

/// The project's plugins are keyed by id and version: no key occurs twice.
pub open spec fn plugin_keys_unique(p: ViewProject) -> bool {
    forall|i: int, j: int|
        #![trigger p.plugins@[i], p.plugins@[j]]
        0 <= i < j < p.plugins@.len() ==> !is_plugin(p.plugins@[i].plugin_id@, p.plugins@[i].plugin_version@)(p.plugins@[j])
}

/// The label a plugin publishes for a parameter, or else the parameter id.
pub open spec fn parameter_label(p: ViewProject, plugin_id: Seq<char>, version: Seq<char>, parameter: Seq<char>) -> Seq<char> {
    match first_index(p.plugins@, is_plugin(plugin_id, version)) {
        Some(i) => match first_index(p.plugins[i].parameters@, is_parameter(parameter)) {
            Some(k) => p.plugins[i].parameters[k].label@,
            None => parameter,
        },
        None => parameter,
    }
}

pub open spec fn is_instance(entity: Seq<char>) -> spec_fn(EffectRef) -> bool {
    |effect: EffectRef| effect.instance_id matches Some(id) && id@ == entity
}

/// The slot and parameter an effect target addresses: by insert index when the
/// lane targets the owner itself, or by the instance the lane targets.
pub open spec fn effect_slot(lane: LaneTarget, owner_id: Seq<char>, effects: Seq<EffectRef>) -> Option<(int, Seq<char>, bool)> {
    if lane.entity_id@ == owner_id {
        match lane.insert {
            Some((index, parameter)) => Some((index as int, match parameter {
                InsertParameter::Mix => "mix"@,
                InsertParameter::Bypass => "bypass"@,
                InsertParameter::Plugin(id) => id@,
            }, !(parameter is Plugin))),
            None => None,
        }
    } else {
        match first_index(effects, is_instance(lane.entity_id@)) {
            Some(index) => Some((index, lane.parameter_id@, lane.effect_host)),
            None => None,
        }
    }
}

/// The musical name of an effect-host parameter.
pub open spec fn host_parameter_name(parameter: Seq<char>) -> Seq<char> {
    if parameter == "mix"@ { "Dry / wet"@ } else if parameter == "bypass"@ { "Bypass"@ } else { parameter }
}

/// The label of a lane that targets an effect of this owner, if it does.
pub open spec fn effect_label(p: ViewProject, lane: LaneTarget, owner_id: Seq<char>, owner: Seq<char>, effects: Seq<EffectRef>) -> Option<LabelModel> {
    match effect_slot(lane, owner_id, effects) {
        Some((index, parameter, host)) => if 0 <= index < effects.len() {
            let effect = effects[index];
            Some(LabelModel {
                key: match effect.instance_id {
                    Some(id) => id@,
                    None => "insert:"@ + owner_id + ":"@ + decimal(index as nat),
                },
                owner,
                device: Some(decimal((index + 1) as nat) + " "@ + effect.plugin_name@),
                parameter: if host {
                    host_parameter_name(parameter)
                } else {
                    parameter_label(p, effect.plugin_id@, effect.plugin_version@, parameter)
                },
            })
        } else {
            None
        },
        None => None,
    }
}

fn find_plugin(plugins: &Vec<PluginInfo>, id: &String, version: &String) -> (found: Option<usize>)
    ensures
        match found {
            Some(i) => first_index(plugins@, is_plugin(id@, version@)) == Some(i as int),
            None => first_index(plugins@, is_plugin(id@, version@)) is None,
        },
{
    let ghost p = is_plugin(id@, version@);
    let mut i: usize = 0;
    while i < plugins.len()
        invariant
            i <= plugins.len(),
            p == is_plugin(id@, version@),
            forall|j: int| 0 <= j < i ==> !p(#[trigger] plugins@[j]),
        decreases plugins.len() - i,
    {
        if plugins[i].plugin_id.eq(id) && plugins[i].plugin_version.eq(version) {
            proof { lemma_first_found(plugins@, p, i as int); }
            return Some(i);
        }
        i = i + 1;
    }
    proof { lemma_first_absent(plugins@, p); }
    None
}

fn find_parameter(parameters: &Vec<ParameterSpec>, parameter: &String) -> (found: Option<usize>)
    ensures
        match found {
            Some(k) => first_index(parameters@, is_parameter(parameter@)) == Some(k as int),
            None => first_index(parameters@, is_parameter(parameter@)) is None,
        },
{
    let ghost p = is_parameter(parameter@);
    let mut k: usize = 0;
    while k < parameters.len()
        invariant
            k <= parameters.len(),
            p == is_parameter(parameter@),
            forall|j: int| 0 <= j < k ==> !p(#[trigger] parameters@[j]),
        decreases parameters.len() - k,
    {
        if parameters[k].id.eq(parameter) {
            proof { lemma_first_found(parameters@, p, k as int); }
            return Some(k);
        }
        k = k + 1;
    }
    proof { lemma_first_absent(parameters@, p); }
    None
}

fn find_instance(effects: &Vec<EffectRef>, entity: &String) -> (found: Option<usize>)
    ensures
        match found {
            Some(i) => first_index(effects@, is_instance(entity@)) == Some(i as int),
            None => first_index(effects@, is_instance(entity@)) is None,
        },
{
    let ghost p = is_instance(entity@);
    let mut i: usize = 0;
    while i < effects.len()
        invariant
            i <= effects.len(),
            p == is_instance(entity@),
            forall|j: int| 0 <= j < i ==> !p(#[trigger] effects@[j]),
        decreases effects.len() - i,
    {
        let hit = match &effects[i].instance_id {
            Some(id) => id.eq(entity),
            None => false,
        };
        if hit {
            proof { lemma_first_found(effects@, p, i as int); }
            return Some(i);
        }
        i = i + 1;
    }
    proof { lemma_first_absent(effects@, p); }
    None
}

impl ViewProject {
    pub fn plugin_parameter_label(&self, id: &String, version: &String, parameter: &String) -> (label: String)
        requires
            plugin_keys_unique(*self),
        ensures
            label@ == parameter_label(*self, id@, version@, parameter@),
    {
        match find_plugin(&self.plugins, id, version) {
            Some(i) => match find_parameter(&self.plugins[i].parameters, parameter) {
                Some(k) => self.plugins[i].parameters[k].label.clone(),
                None => parameter.clone(),
            },
            None => parameter.clone(),
        }
    }

    pub fn effect_target(&self, lane: &LaneTarget, owner_id: &String, owner: &String, effects: &Vec<EffectRef>) -> (label: Option<TargetLabel>)
        requires
            plugin_keys_unique(*self),
        ensures
            match label {
                Some(l) => effect_label(*self, *lane, owner_id@, owner@, effects@) == Some(l@),
                None => effect_label(*self, *lane, owner_id@, owner@, effects@) is None,
            },
    {
        proof {
            reveal_strlit("mix");
            reveal_strlit("bypass");
            reveal_strlit("Dry / wet");
            reveal_strlit("Bypass");
            reveal_strlit("insert:");
            reveal_strlit(":");
            reveal_strlit(" ");
        }
        let (index, parameter, host) = if lane.entity_id.eq(owner_id) {
            match &lane.insert {
                Some((index, parameter)) => match parameter {
                    InsertParameter::Mix => (*index, String::from_str("mix"), true),
                    InsertParameter::Bypass => (*index, String::from_str("bypass"), true),
                    InsertParameter::Plugin(id) => (*index, id.clone(), false),
                },
                None => { return None; },
            }
        } else {
            match find_instance(effects, &lane.entity_id) {
                Some(index) => (index, lane.parameter_id.clone(), lane.effect_host),
                None => { return None; },
            }
        };
        if index >= effects.len() {
            return None;
        }
        let effect = &effects[index];
        let key = match &effect.instance_id {
            Some(id) => id.clone(),
            None => {
                let mut key = String::from_str("insert:");
                push_str(&mut key, owner_id.as_str());
                push_str(&mut key, ":");
                push_decimal(&mut key, index as u64);
                key
            },
        };
        let mut device = String::new();
        push_decimal(&mut device, (index + 1) as u64);
        push_str(&mut device, " ");
        push_str(&mut device, effect.plugin_name.as_str());
        let parameter = if host {
            if text_is(&parameter, "mix") {
                String::from_str("Dry / wet")
            } else if text_is(&parameter, "bypass") {
                String::from_str("Bypass")
            } else {
                parameter
            }
        } else {
            self.plugin_parameter_label(&effect.plugin_id, &effect.plugin_version, &parameter)
        };
        let label = TargetLabel { key, owner: owner.clone(), device: Some(device), parameter };
        assert(label@.device == Some(decimal((index + 1) as nat) + " "@ + effect.plugin_name@));
        Some(label)
    }
}

/// A channel's owner name: its name, or "Channel n" counting from one.
pub open spec fn channel_owner(channel: Channel, index: int) -> Seq<char> {
    match channel.name {
        Some(name) => name@,
        None => "Channel "@ + decimal((index + 1) as nat),
    }
}

/// The lane targets the channel's instrument: by its instance, or by the
/// channel id with a parameter that is neither a channel nor an insert parameter.
pub open spec fn targets_instrument(channel: Channel, lane: LaneTarget) -> bool {
    ||| channel.instrument.instance_id matches Some(id) && id@ == lane.entity_id@
    ||| channel.id@ == lane.entity_id@ && !lane.channel_parameter && lane.insert is None
}

/// What the `index`-th channel makes of the lane, if the lane belongs to it.
pub open spec fn channel_label(p: ViewProject, lane: LaneTarget, index: int) -> Option<LabelModel> {
    let channel = p.channels[index];
    let owner = channel_owner(channel, index);
    if targets_instrument(channel, lane) {
        Some(LabelModel {
            key: "instrument:"@ + channel.id@,
            owner,
            device: Some(channel.instrument.plugin_name@),
            parameter: parameter_label(p, channel.instrument.plugin_id@, channel.instrument.plugin_version@, lane.parameter_id@),
        })
    } else {
        match effect_label(p, lane, channel.id@, owner, channel.effect_chain@) {
            Some(label) => Some(label),
            None => if channel.id@ == lane.entity_id@ {
                Some(base_label(lane.entity_id@, owner, lane.parameter_id@))
            } else {
                None
            },
        }
    }
}

/// The first channel from `from` on that the lane belongs to, and its label.
pub open spec fn channels_label(p: ViewProject, lane: LaneTarget, from: int) -> Option<LabelModel>
    decreases p.channels.len() - from,
{
    if from < 0 || from >= p.channels.len() {
        None
    } else {
        match channel_label(p, lane, from) {
            Some(label) => Some(label),
            None => channels_label(p, lane, from + 1),
        }
    }
}

/// A bus's owner name: its name, "Master" for the master bus, or "Bus n".
pub open spec fn bus_owner(bus: Bus, index: int) -> Seq<char> {
    match bus.name {
        Some(name) => name@,
        None => if bus.id@ == "mix_master"@ { "Master"@ } else { "Bus "@ + decimal((index + 1) as nat) },
    }
}

pub open spec fn is_bus(id: Seq<char>) -> spec_fn(Bus) -> bool {
    |bus: Bus| bus.id@ == id
}

/// The name of a send's destination: the bus's name or "Bus n"; a destination
/// that is not a listed bus is the master.
pub open spec fn destination_name(p: ViewProject, destination: Seq<char>) -> Seq<char> {
    match first_index(p.mixer_channels@, is_bus(destination)) {
        Some(i) => match p.mixer_channels[i].name {
            Some(name) => name@,
            None => "Bus "@ + decimal((i + 1) as nat),
        },
        None => "Master"@,
    }
}

/// What the `index`-th bus makes of the lane, if the lane belongs to it.
pub open spec fn bus_label(p: ViewProject, lane: LaneTarget, index: int) -> Option<LabelModel> {
    let bus = p.mixer_channels[index];
    let owner = bus_owner(bus, index);
    match effect_label(p, lane, bus.id@, owner, bus.inserts@) {
        Some(label) => Some(label),
        None => if bus.id@ == lane.entity_id@ {
            let base = base_label(lane.entity_id@, owner, lane.parameter_id@);
            Some(match lane.send_destination {
                Some(destination) => LabelModel { parameter: "Send to "@ + destination_name(p, destination@), ..base },
                None => base,
            })
        } else {
            None
        },
    }
}

/// The first bus from `from` on that the lane belongs to, and its label.
pub open spec fn buses_label(p: ViewProject, lane: LaneTarget, from: int) -> Option<LabelModel>
    decreases p.mixer_channels.len() - from,
{
    if from < 0 || from >= p.mixer_channels.len() {
        None
    } else {
        match bus_label(p, lane, from) {
            Some(label) => Some(label),
            None => buses_label(p, lane, from + 1),
        }
    }
}

pub open spec fn is_clip(id: Seq<char>) -> spec_fn(String) -> bool {
    |clip: String| clip@ == id
}

/// The owner of a lane that no channel or bus claims.
pub open spec fn fallback_owner(p: ViewProject, entity: Seq<char>) -> Seq<char> {
    match first_index(p.sample_clips@, is_clip(entity)) {
        Some(i) => "Audio clip "@ + decimal((i + 1) as nat),
        None => if entity == p.id@ {
            "Project"@
        } else if entity == "mix_master"@ {
            "Master"@
        } else {
            "Automation"@
        },
    }
}

/// Channels claim a lane first, in order, then buses, then audio clips and the project.
pub open spec fn target_label(p: ViewProject, lane: LaneTarget) -> LabelModel {
    match channels_label(p, lane, 0) {
        Some(label) => label,
        None => match buses_label(p, lane, 0) {
            Some(label) => label,
            None => base_label(lane.entity_id@, fallback_owner(p, lane.entity_id@), lane.parameter_id@),
        },
    }
}

fn numbered(prefix: &str, index: usize) -> (text: String)
    requires
        index < usize::MAX,
    ensures
        text@ == prefix@ + decimal((index + 1) as nat),
{
    let mut text = String::from_str(prefix);
    push_decimal(&mut text, (index + 1) as u64);
    text
}

impl ViewProject {
    fn channel_target(&self, lane: &LaneTarget, index: usize) -> (label: Option<TargetLabel>)
        requires
            plugin_keys_unique(*self),
            index < self.channels.len(),
        ensures
            match label {
                Some(l) => channel_label(*self, *lane, index as int) == Some(l@),
                None => channel_label(*self, *lane, index as int) is None,
            },
    {
        proof {
            reveal_strlit("Channel ");
            reveal_strlit("instrument:");
        }
        let channel = &self.channels[index];
        let owner = match &channel.name {
            Some(name) => name.clone(),
            None => numbered("Channel ", index),
        };
        let by_instance = match &channel.instrument.instance_id {
            Some(id) => id.eq(&lane.entity_id),
            None => false,
        };
        let is_channel = channel.id.eq(&lane.entity_id);
        if by_instance || (is_channel && !lane.channel_parameter && lane.insert.is_none()) {
            let mut key = String::from_str("instrument:");
            push_str(&mut key, channel.id.as_str());
            return Some(TargetLabel {
                key,
                owner,
                device: Some(channel.instrument.plugin_name.clone()),
                parameter: self.plugin_parameter_label(&channel.instrument.plugin_id, &channel.instrument.plugin_version, &lane.parameter_id),
            });
        }
        match self.effect_target(lane, &channel.id, &owner, &channel.effect_chain) {
            Some(label) => Some(label),
            None => if is_channel {
                Some(base(&lane.entity_id, owner, &lane.parameter_id))
            } else {
                None
            },
        }
    }

    fn destination(&self, destination: &String) -> (name: String)
        ensures
            name@ == destination_name(*self, destination@),
    {
        proof {
            reveal_strlit("Master");
            reveal_strlit("Bus ");
        }
        let buses = &self.mixer_channels;
        let ghost p = is_bus(destination@);
        let mut i: usize = 0;
        while i < buses.len()
            invariant
                i <= buses.len(),
                buses@ == self.mixer_channels@,
                p == is_bus(destination@),
                forall|j: int| 0 <= j < i ==> !p(#[trigger] buses@[j]),
            decreases buses.len() - i,
        {
            if buses[i].id.eq(destination) {
                proof { lemma_first_found(buses@, p, i as int); }
                return match &buses[i].name {
                    Some(name) => name.clone(),
                    None => numbered("Bus ", i),
                };
            }
            i = i + 1;
        }
        proof { lemma_first_absent(buses@, p); }
        String::from_str("Master")
    }

    fn bus_target(&self, lane: &LaneTarget, index: usize) -> (label: Option<TargetLabel>)
        requires
            plugin_keys_unique(*self),
            index < self.mixer_channels.len(),
        ensures
            match label {
                Some(l) => bus_label(*self, *lane, index as int) == Some(l@),
                None => bus_label(*self, *lane, index as int) is None,
            },
    {
        proof {
            reveal_strlit("mix_master");
            reveal_strlit("Master");
            reveal_strlit("Bus ");
            reveal_strlit("Send to ");
        }
        let bus = &self.mixer_channels[index];
        let owner = match &bus.name {
            Some(name) => name.clone(),
            None => if text_is(&bus.id, "mix_master") {
                String::from_str("Master")
            } else {
                numbered("Bus ", index)
            },
        };
        if let Some(label) = self.effect_target(lane, &bus.id, &owner, &bus.inserts) {
            return Some(label);
        }
        if !bus.id.eq(&lane.entity_id) {
            return None;
        }
        let mut label = base(&lane.entity_id, owner, &lane.parameter_id);
        if let Some(destination) = &lane.send_destination {
            let mut parameter = String::from_str("Send to ");
            let name = self.destination(destination);
            push_str(&mut parameter, name.as_str());
            label.parameter = parameter;
        }
        Some(label)
    }

    fn fallback(&self, entity: &String) -> (owner: String)
        ensures
            owner@ == fallback_owner(*self, entity@),
    {
        proof {
            reveal_strlit("Audio clip ");
            reveal_strlit("Project");
            reveal_strlit("mix_master");
            reveal_strlit("Master");
            reveal_strlit("Automation");
        }
        let clips = &self.sample_clips;
        let ghost p = is_clip(entity@);
        let mut i: usize = 0;
        while i < clips.len()
            invariant
                i <= clips.len(),
                clips@ == self.sample_clips@,
                p == is_clip(entity@),
                forall|j: int| 0 <= j < i ==> !p(#[trigger] clips@[j]),
            decreases clips.len() - i,
        {
            if clips[i].eq(entity) {
                proof { lemma_first_found(clips@, p, i as int); }
                return numbered("Audio clip ", i);
            }
            i = i + 1;
        }
        proof { lemma_first_absent(clips@, p); }
        if entity.eq(&self.id) {
            String::from_str("Project")
        } else if text_is(entity, "mix_master") {
            String::from_str("Master")
        } else {
            String::from_str("Automation")
        }
    }

    pub fn automation_target(&self, lane: &LaneTarget) -> (label: TargetLabel)
        requires
            plugin_keys_unique(*self),
        ensures
            label@ == target_label(*self, *lane),
    {
        let mut i: usize = 0;
        while i < self.channels.len()
            invariant
                i <= self.channels.len(),
                plugin_keys_unique(*self),
                channels_label(*self, *lane, 0) == channels_label(*self, *lane, i as int),
            decreases self.channels.len() - i,
        {
            if let Some(label) = self.channel_target(lane, i) {
                return label;
            }
            i = i + 1;
        }
        let mut k: usize = 0;
        while k < self.mixer_channels.len()
            invariant
                k <= self.mixer_channels.len(),
                plugin_keys_unique(*self),
                channels_label(*self, *lane, 0) is None,
                buses_label(*self, *lane, 0) == buses_label(*self, *lane, k as int),
            decreases self.mixer_channels.len() - k,
        {
            if let Some(label) = self.bus_target(lane, k) {
                return label;
            }
            k = k + 1;
        }
        let owner = self.fallback(&lane.entity_id);
        base(&lane.entity_id, owner, &lane.parameter_id)
    }

    /// The lane's label as one line: parameter, then owner and device.
    pub fn automation_label(&self, lane: &LaneTarget) -> (text: String)
        requires
            plugin_keys_unique(*self),
        ensures
            text@ == label_text(target_label(*self, *lane)),
    {
        self.automation_target(lane).text()
    }
}

/// With keys unique, the label of a parameter is read from the one plugin
/// entry under that key, wherever it stands among the plugins.
pub proof fn lemma_parameter_label_reads_entry(p: ViewProject, i: int, parameter: Seq<char>)
    requires
        plugin_keys_unique(p),
        0 <= i < p.plugins@.len(),
    ensures
        parameter_label(p, p.plugins@[i].plugin_id@, p.plugins@[i].plugin_version@, parameter)
            == (match first_index(p.plugins@[i].parameters@, is_parameter(parameter)) {
                Some(k) => p.plugins@[i].parameters@[k].label@,
                None => parameter,
            }),
{
    let key = is_plugin(p.plugins@[i].plugin_id@, p.plugins@[i].plugin_version@);
    assert forall|j: int| 0 <= j < i implies !key(#[trigger] p.plugins@[j]) by {
        assert(!is_plugin(p.plugins@[j].plugin_id@, p.plugins@[j].plugin_version@)(p.plugins@[i]));
    }
    lemma_first_found(p.plugins@, key, i);
}

/// A send names its destination bus by the first bus listed under that id:
/// its name when it has one, otherwise "Bus " and its position counting from
/// one. The master is named only for a destination no bus lists.
pub proof fn lemma_send_names_listed_bus(p: ViewProject, destination: Seq<char>, i: int)
    requires
        0 <= i < p.mixer_channels@.len(),
        p.mixer_channels@[i].id@ == destination,
        forall|j: int| 0 <= j < i ==> (#[trigger] p.mixer_channels@[j]).id@ != destination,
    ensures
        destination_name(p, destination) == (match p.mixer_channels@[i].name {
            Some(name) => name@,
            None => "Bus "@ + decimal((i + 1) as nat),
        }),
{
    lemma_first_found(p.mixer_channels@, is_bus(destination), i);
}

/// A destination that no bus lists is the master.
pub proof fn lemma_unlisted_destination_is_master(p: ViewProject, destination: Seq<char>)
    requires
        forall|j: int| 0 <= j < p.mixer_channels@.len() ==> (#[trigger] p.mixer_channels@[j]).id@ != destination,
    ensures
        destination_name(p, destination) == "Master"@,
{
    lemma_first_absent(p.mixer_channels@, is_bus(destination));
}

/// "Bus n" is never "Master": an unnamed listed bus is never taken for the master.
pub proof fn lemma_numbered_bus_is_not_master(n: nat)
    ensures
        "Bus "@ + decimal(n) != "Master"@,
{
    reveal_strlit("Bus ");
    reveal_strlit("Master");
    assert(("Bus "@ + decimal(n))[0] == 'B');
    assert("Master"@[0] == 'M');
}

/// An effect addressed by its instance keeps its instance id as key wherever
/// it sits in the chain, while the device name tells its current slot: moving
/// the effect keeps the lane's key and renumbers the device.
pub proof fn lemma_effect_key_follows_instance(p: ViewProject, lane: LaneTarget, owner_id: Seq<char>, owner: Seq<char>, effects: Seq<EffectRef>, index: int)
    requires
        lane.entity_id@ != owner_id,
        0 <= index < effects.len(),
        is_first(effects, is_instance(lane.entity_id@), index),
    ensures
        effect_label(p, lane, owner_id, owner, effects) matches Some(label)
            && label.key == lane.entity_id@
            && label.device == Some(decimal((index + 1) as nat) + " "@ + effects[index].plugin_name@),
{
    crate::search::lemma_first_found(effects, is_instance(lane.entity_id@), index);
}

/// A channel's instrument and the channel itself never share a key: the
/// instrument's key is the channel id behind "instrument:".
pub proof fn lemma_instrument_namespace(channel_id: Seq<char>)
    ensures
        "instrument:"@ + channel_id != channel_id,
{
    assert(("instrument:"@ + channel_id).len() != channel_id.len()) by {
        reveal_strlit("instrument:");
    }
}

/// A lane that names a channel's built-in parameter, and no instrument
/// instance, is labelled by that channel with the parameter's musical name.
pub proof fn lemma_channel_parameter_label(p: ViewProject, lane: LaneTarget)
    requires
        p.channels.len() > 0,
        p.channels[0].id@ == lane.entity_id@,
        !(p.channels[0].instrument.instance_id matches Some(id) && id@ == lane.entity_id@),
        lane.channel_parameter,
        lane.insert is None,
        p.channels[0].effect_chain.len() == 0,
    ensures
        target_label(p, lane) == base_label(lane.entity_id@, channel_owner(p.channels[0], 0), lane.parameter_id@),
{
    crate::search::lemma_first_absent(p.channels[0].effect_chain@, is_instance(lane.entity_id@));
}

/// The label's key occurs earlier in the list.
pub open spec fn key_seen_before(labels: Seq<TargetLabel>, i: int) -> bool {
    exists|j: int| 0 <= j < i && #[trigger] labels[j].key@ == labels[i].key@
}

/// The positions of the first label of each key, in order: the targets the
/// lane navigation offers.
pub fn distinct_targets(labels: &Vec<TargetLabel>) -> (firsts: Vec<usize>)
    ensures
        forall|k: int| 0 <= k < firsts.len() ==> #[trigger] firsts[k] < labels.len() && !key_seen_before(labels@, firsts[k] as int),
        forall|i: int| 0 <= i < labels.len() && !key_seen_before(labels@, i) ==> firsts@.contains(i as usize),
        forall|a: int, b: int| 0 <= a < b < firsts.len() ==> firsts[a] < firsts[b],
{
    let mut firsts: Vec<usize> = Vec::new();
    let mut i: usize = 0;
    while i < labels.len()
        invariant
            i <= labels.len(),
            forall|k: int| 0 <= k < firsts.len() ==> #[trigger] firsts[k] < i && !key_seen_before(labels@, firsts[k] as int),
            forall|m: int| 0 <= m < i && !key_seen_before(labels@, m) ==> firsts@.contains(m as usize),
            forall|a: int, b: int| 0 <= a < b < firsts.len() ==> firsts[a] < firsts[b],
            forall|m: int| 0 <= m < i ==> exists|k: int| 0 <= k < firsts.len() && #[trigger] labels@[firsts[k] as int].key@ == #[trigger] labels@[m].key@,
        decreases labels.len() - i,
    {
        let mut seen = false;
        let mut k: usize = 0;
        while k < firsts.len()
            invariant
                k <= firsts.len(),
                i < labels.len(),
                forall|q: int| 0 <= q < firsts.len() ==> #[trigger] firsts[q] < i,
                seen ==> exists|q: int| 0 <= q < k && labels@[firsts[q] as int].key@ == labels@[i as int].key@,
                !seen ==> forall|q: int| 0 <= q < k ==> labels@[firsts[q] as int].key@ != labels@[i as int].key@,
            decreases firsts.len() - k,
        {
            if labels[firsts[k]].key.eq(&labels[i].key) {
                seen = true;
            }
            k = k + 1;
        }
        proof {
            if seen {
                let q = choose|q: int| 0 <= q < firsts.len() && labels@[firsts[q] as int].key@ == labels@[i as int].key@;
                assert(key_seen_before(labels@, i as int));
            } else {
                if key_seen_before(labels@, i as int) {
                    let j = choose|j: int| 0 <= j < i && #[trigger] labels@[j].key@ == labels@[i as int].key@;
                    let q = choose|q: int| 0 <= q < firsts.len() && #[trigger] labels@[firsts[q] as int].key@ == #[trigger] labels@[j].key@;
                    assert(labels@[firsts[q] as int].key@ == labels@[i as int].key@);
                }
            }
        }
        let ghost before = firsts@;
        if !seen {
            firsts.push(i);
        }
        proof {
            assert forall|m: int| 0 <= m <= i && !key_seen_before(labels@, m) implies firsts@.contains(m as usize) by {
                if m < i {
                    let k = choose|k: int| 0 <= k < before.len() && before[k] == m as usize;
                    assert(firsts@[k] == m as usize);
                } else {
                    assert(!seen);
                    assert(firsts@[firsts.len() - 1] == i);
                }
            }
            assert forall|m: int| 0 <= m <= i implies exists|k: int| 0 <= k < firsts.len() && #[trigger] labels@[firsts[k] as int].key@ == #[trigger] labels@[m].key@ by {
                if m < i {
                    let k = choose|k: int| 0 <= k < before.len() && #[trigger] labels@[before[k] as int].key@ == #[trigger] labels@[m].key@;
                    assert(firsts@[k] == before[k]);
                } else if seen {
                    let q = choose|q: int| 0 <= q < before.len() && labels@[before[q] as int].key@ == labels@[i as int].key@;
                    assert(firsts@[q] == before[q]);
                } else {
                    assert(firsts@[firsts.len() - 1] == i);
                }
            }
        }
        i = i + 1;
    }
    firsts
}

} // verus!
