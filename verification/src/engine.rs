//! The control thread's acceptance rules: which snapshots replace the rendered
//! project, which transport commands are well formed, and what the audible
//! frame is.
use vstd::prelude::*;
use crate::document_wire::ProtocolError;
use crate::text::{decimal, push_decimal, push_str};

verus! {

/// The characters of a hexadecimal digit, either case.
pub open spec fn is_hex_digit(c: char) -> bool {
    ('0' <= c && c <= '9') || ('a' <= c && c <= 'f') || ('A' <= c && c <= 'F')
}

/// A SHA-256 digest written as 64 hexadecimal digits.
pub open spec fn is_digest(hash: Seq<char>) -> bool {
    hash.len() == 64 && forall|i: int| 0 <= i < 64 ==> #[trigger] is_hex_digit(hash[i])
}

/// Whether `hash` is 64 hexadecimal digits.
pub fn valid_digest(hash: &String) -> (valid: bool)
    ensures
        valid == is_digest(hash@),
{
    let text = hash.as_str();
    let n = text.unicode_len();
    if n != 64 {
        return false;
    }
    let mut i: usize = 0;
    while i < 64
        invariant
            i <= 64,
            text@ == hash@,
            hash@.len() == 64,
            forall|j: int| 0 <= j < i ==> #[trigger] is_hex_digit(hash@[j]),
        decreases 64 - i,
    {
        let c = text.get_char(i);
        if !(('0' <= c && c <= '9') || ('a' <= c && c <= 'f') || ('A' <= c && c <= 'F')) {
            assert(!is_hex_digit(hash@[i as int]));
            return false;
        }
        i = i + 1;
    }
    true
}

/// The plugin ids the built-in plugins own.
pub open spec fn is_reserved_plugin(plugin_id: Seq<char>) -> bool {
    plugin_id.len() >= 8 && plugin_id.take(8) == "oxitone."@
}

/// Whether a plugin id lies in the built-in namespace.
pub fn reserved_plugin(plugin_id: &String) -> (reserved: bool)
    ensures
        reserved == is_reserved_plugin(plugin_id@),
{
    proof { reveal_strlit("oxitone."); }
    let text = plugin_id.as_str();
    let prefix = "oxitone.";
    let n = text.unicode_len();
    if n < 8 {
        return false;
    }
    let mut i: usize = 0;
    while i < 8
        invariant
            i <= 8,
            n == plugin_id@.len(),
            n >= 8,
            text@ == plugin_id@,
            prefix@ == "oxitone."@,
            prefix@.len() == 8,
            forall|j: int| 0 <= j < i ==> plugin_id@[j] == "oxitone."@[j],
        decreases 8 - i,
    {
        if text.get_char(i) != prefix.get_char(i) {
            return false;
        }
        i = i + 1;
    }
    assert(plugin_id@.take(8) =~= "oxitone."@);
    true
}

/// Why a snapshot is refused.
pub open spec fn invalid_hash_message() -> Seq<char> {
    "invalid snapshot hash"@
}

pub open spec fn format_change_message() -> Seq<char> {
    "restart preview to change sample rate or block size during a session"@
}

/// The newest snapshot revision the engine has seen.
pub struct SnapshotGate {
    pub seen: Option<u64>,
}

/// What becomes of a snapshot.
#[derive(Debug)]
pub enum Admission {
    /// Not newer than one already seen: nothing to do.
    Stale,
    /// Newer and well formed: compile and render it.
    Admit,
    /// Newer but refused, with the reason.
    Refuse(ProtocolError),
}

/// A snapshot newer than every seen one is recorded as seen; it is admitted
/// when its digest is well formed and it keeps the sample rate and block size
/// of a running session.
pub open spec fn admission_ok(seen: Option<u64>, revision: u64, hash: Seq<char>, format_change: bool, admission: Admission, next: Option<u64>) -> bool {
    if seen matches Some(s) && revision <= s {
        admission is Stale && next == seen
    } else {
        &&& next == Some(revision)
        &&& if !is_digest(hash) {
            admission matches Admission::Refuse(e) && e.message@ == invalid_hash_message()
        } else if format_change {
            admission matches Admission::Refuse(e) && e.message@ == format_change_message()
        } else {
            admission is Admit
        }
    }
}

impl SnapshotGate {
    pub fn new() -> (gate: SnapshotGate)
        ensures
            gate.seen is None,
    {
        SnapshotGate { seen: None }
    }

    /// Decides on a snapshot of `revision` with digest `hash`; `format_change`
    /// tells that a session is running at another sample rate or block size.
    pub fn consider(&mut self, revision: u64, hash: &String, format_change: bool) -> (admission: Admission)
        ensures
            admission_ok(old(self).seen, revision, hash@, format_change, admission, final(self).seen),
    {
        if let Some(seen) = self.seen {
            if revision <= seen {
                return Admission::Stale;
            }
        }
        self.seen = Some(revision);
        if !valid_digest(hash) {
            proof { reveal_strlit("invalid snapshot hash"); }
            return Admission::Refuse(ProtocolError { message: String::from_str("invalid snapshot hash") });
        }
        if format_change {
            proof { reveal_strlit("restart preview to change sample rate or block size during a session"); }
            return Admission::Refuse(ProtocolError {
                message: String::from_str("restart preview to change sample rate or block size during a session"),
            });
        }
        Admission::Admit
    }
}

/// A snapshot is never admitted twice and never after a newer one: the seen
/// revision only grows, and an admitted revision exceeds every one seen before.
pub proof fn lemma_snapshots_monotone(seen: Option<u64>, revision: u64, hash: Seq<char>, format_change: bool, admission: Admission, next: Option<u64>)
    requires
        admission_ok(seen, revision, hash, format_change, admission, next),
    ensures
        next is Some,
        seen matches Some(s) ==> next.unwrap() >= s,
        admission is Admit ==> (seen matches Some(s) ==> revision > s) && next == Some(revision),
{
}

/// The frame the listener hears: while playing, the cursor less the output
/// and graph latency (not below zero); otherwise the cursor itself.
pub open spec fn audible_frame(cursor: u64, latency: int, playing: bool) -> int {
    if playing {
        if cursor >= latency { cursor - latency } else { 0 }
    } else {
        cursor as int
    }
}

pub fn audible(cursor: u64, output_latency: u64, graph_latency: u64, playing: bool) -> (frame: u64)
    requires
        output_latency + graph_latency <= u64::MAX,
    ensures
        frame == audible_frame(cursor, output_latency + graph_latency, playing),
{
    let latency = output_latency + graph_latency;
    if playing {
        cursor.saturating_sub(latency)
    } else {
        cursor
    }
}

/// The positions a transport command may carry.
pub struct TransportPosition {
    pub frame: Option<u64>,
    pub beat_given: bool,
    pub beat_negative: bool,
    pub seconds_given: bool,
}

pub open spec fn ambiguous_message() -> Seq<char> {
    "transport position is ambiguous"@
}

pub open spec fn negative_beat_message() -> Seq<char> {
    "beat must be non-negative"@
}

pub open spec fn loop_message() -> Seq<char> {
    "loop end must follow start"@
}

pub open spec fn no_project_message() -> Seq<char> {
    "no accepted project"@
}

/// How many positions a command gives.
pub open spec fn given(position: TransportPosition) -> int {
    (if position.frame is Some { 1int } else { 0 }) + (if position.beat_given { 1int } else { 0 })
        + (if position.seconds_given { 1int } else { 0 })
}

/// A transport command needs an accepted project, at most one position, a
/// non-negative beat, and a loop whose end follows its start.
pub open spec fn transport_check(project: bool, position: TransportPosition, loop_region: Option<(u64, u64)>) -> Option<Seq<char>> {
    if !project {
        Some(no_project_message())
    } else if given(position) > 1 {
        Some(ambiguous_message())
    } else if position.beat_given && position.beat_negative {
        Some(negative_beat_message())
    } else if loop_region matches Some((start, end)) && end <= start {
        Some(loop_message())
    } else {
        None
    }
}

/// Checks a transport command before it reaches the render graph.
pub fn check_transport(project: bool, position: &TransportPosition, loop_region: Option<(u64, u64)>) -> (result: Result<(), ProtocolError>)
    ensures
        match result {
            Ok(()) => transport_check(project, *position, loop_region) is None,
            Err(e) => transport_check(project, *position, loop_region) == Some(e.message@),
        },
{
    proof {
        reveal_strlit("no accepted project");
        reveal_strlit("transport position is ambiguous");
        reveal_strlit("beat must be non-negative");
        reveal_strlit("loop end must follow start");
    }
    if !project {
        return Err(ProtocolError { message: String::from_str("no accepted project") });
    }
    let mut count: u8 = 0;
    if position.frame.is_some() { count = count + 1; }
    if position.beat_given { count = count + 1; }
    if position.seconds_given { count = count + 1; }
    if count > 1 {
        return Err(ProtocolError { message: String::from_str("transport position is ambiguous") });
    }
    if position.beat_given && position.beat_negative {
        return Err(ProtocolError { message: String::from_str("beat must be non-negative") });
    }
    if let Some((start, end)) = loop_region {
        if end <= start {
            return Err(ProtocolError { message: String::from_str("loop end must follow start") });
        }
    }
    Ok(())
}

/// What a native command asks of the engine: one of the four transport
/// commands, or anything else.
#[derive(Clone, Copy, Debug, PartialEq, Eq)]
pub enum TransportCommand {
    Play,
    Pause,
    Stop,
    Seek,
    Other,
}

pub open spec fn transport_only_message() -> Seq<char> {
    "preview transport only"@
}

pub open spec fn seek_position_message() -> Seq<char> {
    "seek requires position"@
}

/// The preview engine takes only transport commands; among those, the checks
/// of `transport_check` come first, and a seek must name where to go.
pub open spec fn transport_command_check(
    command: TransportCommand,
    project: bool,
    position: TransportPosition,
    loop_region: Option<(u64, u64)>,
) -> Option<Seq<char>> {
    if command is Other {
        Some(transport_only_message())
    } else if transport_check(project, position, loop_region) is Some {
        transport_check(project, position, loop_region)
    } else if command is Seek && given(position) == 0 {
        Some(seek_position_message())
    } else {
        None
    }
}

/// Checks a native command against the preview transport before any of it
/// reaches the render graph.
pub fn check_transport_command(
    command: TransportCommand,
    project: bool,
    position: &TransportPosition,
    loop_region: Option<(u64, u64)>,
) -> (result: Result<(), ProtocolError>)
    ensures
        match result {
            Ok(()) => transport_command_check(command, project, *position, loop_region) is None,
            Err(e) => transport_command_check(command, project, *position, loop_region) == Some(e.message@),
        },
{
    if let TransportCommand::Other = command {
        proof { reveal_strlit("preview transport only"); }
        return Err(ProtocolError { message: String::from_str("preview transport only") });
    }
    match check_transport(project, position, loop_region) {
        Err(e) => { return Err(e); },
        Ok(()) => {},
    }
    let seek = match command {
        TransportCommand::Seek => true,
        _ => false,
    };
    if seek && position.frame.is_none() && !position.beat_given && !position.seconds_given {
        proof { reveal_strlit("seek requires position"); }
        return Err(ProtocolError { message: String::from_str("seek requires position") });
    }
    Ok(())
}

pub open spec fn plugin_message() -> Seq<char> {
    "duplicate or reserved plugin ID/version"@
}

/// A plugin library may register unless it claims the built-in namespace or
/// an id and version the registry already holds.
pub fn check_plugin(plugin_id: &String, registered: bool) -> (result: Result<(), ProtocolError>)
    ensures
        match result {
            Ok(()) => !is_reserved_plugin(plugin_id@) && !registered,
            Err(e) => (is_reserved_plugin(plugin_id@) || registered) && e.message@ == plugin_message(),
        },
{
    if reserved_plugin(plugin_id) || registered {
        proof { reveal_strlit("duplicate or reserved plugin ID/version"); }
        return Err(ProtocolError { message: String::from_str("duplicate or reserved plugin ID/version") });
    }
    Ok(())
}

/// One faulting plugin in the playback status: its id, a colon, its fault count.
pub open spec fn fault_entry(plugin: (String, u64)) -> Seq<char> {
    plugin.0@ + ": "@ + decimal(plugin.1 as nat)
}

/// The faulting plugins, in order, separated by ", ".
pub open spec fn fault_list(plugins: Seq<(String, u64)>) -> Seq<char>
    decreases plugins.len(),
{
    if plugins.len() == 0 {
        Seq::empty()
    } else {
        let before = fault_list(plugins.drop_last());
        if plugins.last().1 == 0 {
            before
        } else if before.len() == 0 {
            fault_entry(plugins.last())
        } else {
            before + ", "@ + fault_entry(plugins.last())
        }
    }
}

/// The sum of the plugins' fault counts.
pub open spec fn fault_sum(plugins: Seq<(String, u64)>) -> int
    decreases plugins.len(),
{
    if plugins.len() == 0 { 0 } else { fault_sum(plugins.drop_last()) + plugins.last().1 }
}

/// The playback status's fault report: the total count and the faulting plugins.
pub fn fault_report(plugins: &Vec<(String, u64)>) -> (report: (u64, String))
    requires
        fault_sum(plugins@) <= u64::MAX,
    ensures
        report.0 == fault_sum(plugins@),
        report.1@ == fault_list(plugins@),
{
    proof {
        reveal_strlit(": ");
        reveal_strlit(", ");
    }
    let mut total: u64 = 0;
    let mut nodes = String::new();
    let mut i: usize = 0;
    while i < plugins.len()
        invariant
            i <= plugins.len(),
            fault_sum(plugins@) <= u64::MAX,
            total == fault_sum(plugins@.take(i as int)),
            nodes@ == fault_list(plugins@.take(i as int)),
        decreases plugins.len() - i,
    {
        let ghost prefix = plugins@.take(i + 1);
        assert(prefix.drop_last() =~= plugins@.take(i as int));
        assert(prefix.last() == plugins@[i as int]);
        proof { lemma_fault_sum_prefix(plugins@, i as int + 1); }
        let (id, count) = &plugins[i];
        total = total + *count;
        if *count > 0 {
            if nodes.as_str().unicode_len() > 0 {
                push_str(&mut nodes, ", ");
            }
            push_str(&mut nodes, id.as_str());
            push_str(&mut nodes, ": ");
            push_decimal(&mut nodes, *count);
            assert(nodes@ =~= fault_list(prefix));
        }
        i = i + 1;
    }
    assert(plugins@.take(plugins.len() as int) =~= plugins@);
    (total, nodes)
}

/// A prefix's fault count never exceeds the whole list's.
pub proof fn lemma_fault_sum_prefix(plugins: Seq<(String, u64)>, n: int)
    requires
        0 <= n <= plugins.len(),
    ensures
        fault_sum(plugins.take(n)) <= fault_sum(plugins),
    decreases plugins.len() - n,
{
    if n < plugins.len() {
        lemma_fault_sum_prefix(plugins, n + 1);
        assert(plugins.take(n + 1).drop_last() =~= plugins.take(n));
    } else {
        assert(plugins.take(n) =~= plugins);
    }
}

} // verus!
