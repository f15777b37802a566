//! The command lines by which routes are set up and taken down.

use crate::audio::{mix_port, mix_target};
use crate::command::{argument_lists, Program, Request, RequestModel};
use crate::number::{decimal, decimal_text};
use crate::text::{strings_of, texts};
use vstd::prelude::*;

verus! {

/// Asks for the server information.
pub open spec fn info_args() -> Seq<Seq<char>> {
    seq!["info"@]
}

/// Loads the sink that the applications play to.
pub open spec fn app_sink_args() -> Seq<Seq<char>> {
    seq![
        "load-module"@,
        "module-null-sink"@,
        "sink_name=PipeShare_AppSink"@,
        "sink_properties=\"device.description=PipeShare_AppSink device.class=filter node.virtual=true\""@,
        "channel_map=stereo"@,
    ]
}

/// Loads the sink in which everything is mixed.
pub open spec fn mix_args() -> Seq<Seq<char>> {
    seq![
        "load-module"@,
        "module-null-sink"@,
        "sink_name=PipeShare_Mix"@,
        "sink_properties=\"device.description=PipeShare_Mix device.class=filter node.virtual=true\""@,
        "channel_map=stereo"@,
    ]
}

/// Loads the virtual microphone.
pub open spec fn mic_args() -> Seq<Seq<char>> {
    seq![
        "load-module"@,
        "module-remap-source"@,
        "source_name=PipeShare_Mic"@,
        "master=PipeShare_Mix.monitor"@,
        "source_properties=\"device.description=PipeShare_Mic device.class=filter node.virtual=true\""@,
    ]
}

/// Loads the loopback from a microphone to the mix.
pub open spec fn mic_loop_args(mic: Seq<char>) -> Seq<Seq<char>> {
    seq![
        "load-module"@,
        "module-loopback"@,
        "source="@ + mic,
        "sink=PipeShare_Mix"@,
        "latency_msec=30"@,
    ]
}

/// Loads the loopback from the applications to the mix.
pub open spec fn app_loop_args() -> Seq<Seq<char>> {
    seq![
        "load-module"@,
        "module-loopback"@,
        "source=PipeShare_AppSink.monitor"@,
        "sink=PipeShare_Mix"@,
        "latency_msec=30"@,
    ]
}

/// Loads the loopback from the applications to the default output.
pub open spec fn speaker_loop_args() -> Seq<Seq<char>> {
    seq![
        "load-module"@,
        "module-loopback"@,
        "source=PipeShare_AppSink.monitor"@,
        "latency_msec=30"@,
    ]
}

/// Lists the streams that play.
pub open spec fn list_inputs_args() -> Seq<Seq<char>> {
    seq!["list"@, "sink-inputs"@]
}

/// Lists the streams that record.
pub open spec fn list_outputs_args() -> Seq<Seq<char>> {
    seq!["list"@, "source-outputs"@]
}

/// Lists the loaded modules.
pub open spec fn list_modules_args() -> Seq<Seq<char>> {
    seq!["list"@, "modules"@, "short"@]
}

/// Lists the sources.
pub open spec fn list_sources_args() -> Seq<Seq<char>> {
    seq!["list"@, "sources"@, "short"@]
}

/// Makes a source the default one.
pub open spec fn set_default_args(name: Seq<char>) -> Seq<Seq<char>> {
    seq!["set-default-source"@, name]
}

/// Moves a stream to a device.
pub open spec fn move_args(verb: Seq<char>, id: Seq<char>, device: Seq<char>) -> Seq<Seq<char>> {
    seq![verb, id, device]
}

/// Moves streams to a device, one after the other.
pub open spec fn moves(verb: Seq<char>, ids: Seq<Seq<char>>, device: Seq<char>) -> Seq<
    Seq<Seq<char>>,
> {
    ids.map_values(|id: Seq<char>| move_args(verb, id, device))
}

/// Unloads a module.
pub open spec fn unload_args(id: Seq<char>) -> Seq<Seq<char>> {
    seq!["unload-module"@, id]
}

/// Unloads modules by their listed ids, one after the other.
pub open spec fn unloads(ids: Seq<Seq<char>>) -> Seq<Seq<Seq<char>>> {
    ids.map_values(|id: Seq<char>| unload_args(id))
}

/// The ids of modules as texts, the last loaded first.
pub open spec fn unload_order(ids: Seq<u32>) -> Seq<Seq<char>> {
    ids.reverse().map_values(|id: u32| decimal(id as nat))
}

/// Lists the output ports.
pub open spec fn list_ports_args() -> Seq<Seq<char>> {
    seq!["-o"@]
}

/// Links ports of an application to the mix, one after the other.
pub open spec fn links(ports: Seq<Seq<char>>) -> Seq<Seq<Seq<char>>> {
    ports.map_values(|port: Seq<char>| seq![port, mix_port(port)])
}

/// See [`app_sink_args`].
pub(crate) fn app_sink_command() -> (r: Vec<String>)
    ensures
        texts(r@) == app_sink_args(),
{
    strings_of(
        &[
            "load-module",
            "module-null-sink",
            "sink_name=PipeShare_AppSink",
            "sink_properties=\"device.description=PipeShare_AppSink device.class=filter node.virtual=true\"",
            "channel_map=stereo",
        ],
    )
}

/// See [`mix_args`].
pub(crate) fn mix_command() -> (r: Vec<String>)
    ensures
        texts(r@) == mix_args(),
{
    strings_of(
        &[
            "load-module",
            "module-null-sink",
            "sink_name=PipeShare_Mix",
            "sink_properties=\"device.description=PipeShare_Mix device.class=filter node.virtual=true\"",
            "channel_map=stereo",
        ],
    )
}

/// See [`mic_args`].
pub(crate) fn mic_command() -> (r: Vec<String>)
    ensures
        texts(r@) == mic_args(),
{
    strings_of(
        &[
            "load-module",
            "module-remap-source",
            "source_name=PipeShare_Mic",
            "master=PipeShare_Mix.monitor",
            "source_properties=\"device.description=PipeShare_Mic device.class=filter node.virtual=true\"",
        ],
    )
}

/// See [`mic_loop_args`].
pub(crate) fn mic_loop_command(mic: &str) -> (r: Vec<String>)
    ensures
        texts(r@) == mic_loop_args(mic@),
{
    let source = "source=".to_owned().concat(mic);
    strings_of(
        &[
            "load-module",
            "module-loopback",
            source.as_str(),
            "sink=PipeShare_Mix",
            "latency_msec=30",
        ],
    )
}

/// See [`app_loop_args`].
pub(crate) fn app_loop_command() -> (r: Vec<String>)
    ensures
        texts(r@) == app_loop_args(),
{
    strings_of(
        &[
            "load-module",
            "module-loopback",
            "source=PipeShare_AppSink.monitor",
            "sink=PipeShare_Mix",
            "latency_msec=30",
        ],
    )
}

/// See [`speaker_loop_args`].
pub(crate) fn speaker_loop_command() -> (r: Vec<String>)
    ensures
        texts(r@) == speaker_loop_args(),
{
    strings_of(
        &[
            "load-module",
            "module-loopback",
            "source=PipeShare_AppSink.monitor",
            "latency_msec=30",
        ],
    )
}

/// Asks for one run of `pactl`.
pub(crate) fn pactl(args: Vec<String>) -> (r: Request)
    ensures
        r@ == (RequestModel::Run { program: Program::Pactl, args: texts(args@) }),
{
    Request::Run { program: Program::Pactl, args }
}

/// Asks for a run of `pactl` for each list of arguments.
pub(crate) fn pactl_each(runs: Vec<Vec<String>>) -> (r: Request)
    ensures
        r@ == (RequestModel::RunEach { program: Program::Pactl, runs: argument_lists(runs@) }),
{
    Request::RunEach { program: Program::Pactl, runs }
}

/// See [`moves`].
pub(crate) fn move_commands(verb: &str, ids: &Vec<String>, device: &str) -> (r: Vec<Vec<String>>)
    ensures
        argument_lists(r@) == moves(verb@, texts(ids@), device@),
{
    let mut out: Vec<Vec<String>> = Vec::new();
    for i in 0..ids.len()
        invariant
            argument_lists(out@) == moves(verb@, texts(ids@).take(i as int), device@),
    {
        let ghost old_out = out@;
        let args = strings_of(&[verb, ids[i].as_str(), device]);
        assert(texts(args@) =~= move_args(verb@, ids@[i as int]@, device@));
        out.push(args);
        assert(argument_lists(out@) =~= argument_lists(old_out).push(texts(args@)));
        assert(texts(ids@).take(i + 1) =~= texts(ids@).take(i as int).push(ids@[i as int]@));
        assert(moves(verb@, texts(ids@).take(i + 1), device@) =~= moves(
            verb@,
            texts(ids@).take(i as int),
            device@,
        ).push(move_args(verb@, ids@[i as int]@, device@)));
    }
    assert(texts(ids@).take(ids@.len() as int) == texts(ids@));
    out
}

/// See [`unloads`].
pub(crate) fn unload_commands(ids: &Vec<String>) -> (r: Vec<Vec<String>>)
    ensures
        argument_lists(r@) == unloads(texts(ids@)),
{
    let mut out: Vec<Vec<String>> = Vec::new();
    for i in 0..ids.len()
        invariant
            argument_lists(out@) == unloads(texts(ids@).take(i as int)),
    {
        let ghost old_out = out@;
        let args = strings_of(&["unload-module", ids[i].as_str()]);
        assert(texts(args@) =~= unload_args(ids@[i as int]@));
        out.push(args);
        assert(argument_lists(out@) =~= argument_lists(old_out).push(texts(args@)));
        assert(texts(ids@).take(i + 1) =~= texts(ids@).take(i as int).push(ids@[i as int]@));
        assert(unloads(texts(ids@).take(i + 1)) =~= unloads(texts(ids@).take(i as int)).push(
            unload_args(ids@[i as int]@),
        ));
    }
    assert(texts(ids@).take(ids@.len() as int) == texts(ids@));
    out
}

/// See [`unload_order`].
pub(crate) fn ids_in_unload_order(ids: &Vec<u32>) -> (r: Vec<String>)
    ensures
        texts(r@) == unload_order(ids@),
{
    let mut out: Vec<String> = Vec::new();
    for i in 0..ids.len()
        invariant
            texts(out@) == unload_order(ids@).take(i as int),
    {
        let ghost old_out = out@;
        let id = ids[ids.len() - 1 - i];
        let text = decimal_text(id as u64);
        assert(unload_order(ids@)[i as int] == text@);
        out.push(text);
        assert(texts(out@) =~= texts(old_out).push(text@));
        assert(unload_order(ids@).take(i + 1) =~= unload_order(ids@).take(i as int).push(text@));
    }
    assert(unload_order(ids@).take(ids@.len() as int) == unload_order(ids@));
    out
}

/// See [`links`].
pub(crate) fn link_commands(ports: &Vec<String>) -> (r: Vec<Vec<String>>)
    ensures
        argument_lists(r@) == links(texts(ports@)),
{
    let mut out: Vec<Vec<String>> = Vec::new();
    for i in 0..ports.len()
        invariant
            argument_lists(out@) == links(texts(ports@).take(i as int)),
    {
        let ghost old_out = out@;
        let port = ports[i].as_str();
        let args = strings_of(&[port, mix_target(port)]);
        assert(texts(args@) =~= seq![port@, mix_port(port@)]);
        out.push(args);
        assert(argument_lists(out@) =~= argument_lists(old_out).push(texts(args@)));
        assert(texts(ports@).take(i + 1) =~= texts(ports@).take(i as int).push(port@));
        assert(links(texts(ports@).take(i + 1)) =~= links(texts(ports@).take(i as int)).push(
            seq![port@, mix_port(port@)],
        ));
    }
    assert(texts(ports@).take(ports@.len() as int) == texts(ports@));
    out
}

/// See [`info_args`].
pub(crate) fn info_command() -> (r: Vec<String>)
    ensures
        texts(r@) == info_args(),
{
    strings_of(&["info"])
}

/// See [`list_inputs_args`].
pub(crate) fn list_inputs_command() -> (r: Vec<String>)
    ensures
        texts(r@) == list_inputs_args(),
{
    strings_of(&["list", "sink-inputs"])
}

/// See [`list_outputs_args`].
pub(crate) fn list_outputs_command() -> (r: Vec<String>)
    ensures
        texts(r@) == list_outputs_args(),
{
    strings_of(&["list", "source-outputs"])
}

/// See [`list_modules_args`].
pub(crate) fn list_modules_command() -> (r: Vec<String>)
    ensures
        texts(r@) == list_modules_args(),
{
    strings_of(&["list", "modules", "short"])
}

/// See [`list_sources_args`].
pub(crate) fn list_sources_command() -> (r: Vec<String>)
    ensures
        texts(r@) == list_sources_args(),
{
    strings_of(&["list", "sources", "short"])
}

/// See [`set_default_args`].
pub(crate) fn set_default_command(name: &str) -> (r: Vec<String>)
    ensures
        texts(r@) == set_default_args(name@),
{
    strings_of(&["set-default-source", name])
}

/// See [`list_ports_args`].
pub(crate) fn list_ports_command() -> (r: Vec<String>)
    ensures
        texts(r@) == list_ports_args(),
{
    strings_of(&["-o"])
}

// ---------------------------------------------------------------------------
// Laws
// ---------------------------------------------------------------------------

/// Each stream is moved by a command of its own, in order, and to the one device.
pub proof fn each_stream_is_moved(verb: Seq<char>, ids: Seq<Seq<char>>, device: Seq<char>, i: int)
    requires
        0 <= i < ids.len(),
    ensures
        moves(verb, ids, device).len() == ids.len(),
        moves(verb, ids, device)[i] == seq![verb, ids[i], device],
{
}

/// Each module is unloaded by a command of its own, in order.
pub proof fn each_module_is_unloaded(ids: Seq<Seq<char>>, i: int)
    requires
        0 <= i < ids.len(),
    ensures
        unloads(ids).len() == ids.len(),
        unloads(ids)[i] == seq!["unload-module"@, ids[i]],
{
}

/// Each port is linked by a command of its own, in order, to one of the channels of
/// the mix.
pub proof fn each_port_is_linked(ports: Seq<Seq<char>>, i: int)
    requires
        0 <= i < ports.len(),
    ensures
        links(ports).len() == ports.len(),
        links(ports)[i] == seq![ports[i], mix_port(ports[i])],
{
}

/// Commands about a device name it whole.
pub proof fn devices_are_named_whole(name: Seq<char>)
    ensures
        set_default_args(name) == seq!["set-default-source"@, name],
        mic_loop_args(name).len() == 5,
        mic_loop_args(name)[0] == "load-module"@,
        mic_loop_args(name)[1] == "module-loopback"@,
        mic_loop_args(name)[2] == "source="@ + name,
        mic_loop_args(name)[3] == "sink=PipeShare_Mix"@,
        mic_loop_args(name)[4] == "latency_msec=30"@,
{
}

} // verus!
