//! Virtual device lifecycle: idempotent creation and teardown of the
//! routing objects the capture point needs. An object is created only
//! when the backend's module listing shows no line on which every
//! construction argument occurs, so running the setup again against a
//! backend that still holds the previous run's objects creates
//! nothing.

use vstd::prelude::*;
use vstd::string::StringSliceAdditionalSpecFns;
use crate::listing::{line_matches, matching_ids, matching_ids_spec};
use crate::text::{copy_bytes, field1, split_lines_spec};
use crate::Flavor;

verus! {

/// The kinds of routing object the core owns.
#[derive(Clone, Copy, PartialEq, Eq, Structural)]
pub enum DeviceKind {
    Sink,
    Loopback,
    Source,
}

/// One virtual routing object: its kind and the construction arguments
/// handed to the backend's load command. The same arguments serve as
/// the filter that recognises an already-existing instance in the
/// module listing.
pub struct VirtualDevice {
    pub kind: DeviceKind,
    pub args: Vec<Vec<u8>>,
}

/// Construction arguments of the null sink that forms the capture
/// point under the mixing-server flavor.
pub open spec fn null_sink_args_spec() -> Seq<Seq<u8>> {
    seq![
        "module-null-sink".spec_bytes(),
        "sink_name=audst".spec_bytes(),
        "sink_properties=device.description=\"Audst\\ REC\"".spec_bytes(),
    ]
}

/// Construction arguments of the loopback that keeps the captured
/// audio audible on the default output.
pub open spec fn loopback_args_spec() -> Seq<Seq<u8>> {
    seq![
        "module-loopback".spec_bytes(),
        "source=audst.monitor".spec_bytes(),
        "sink=@DEFAULT_SINK@".spec_bytes(),
    ]
}

/// Construction arguments of the graph-native capture client used
/// under the graph flavor.
pub open spec fn graph_source_args_spec() -> Seq<Seq<u8>> {
    seq![
        "module-jack-source".spec_bytes(),
        "source_name=audst_jack".spec_bytes(),
        "client_name=\"Audst\\ REC\"".spec_bytes(),
    ]
}

/// Name of the capture sink under the mixing-server flavor.
pub fn capture_sink_name() -> (r: Vec<u8>)
    ensures
        r@ == "audst".spec_bytes(),
{
    copy_bytes("audst".as_bytes())
}

/// The null sink that forms the capture point (mixing-server flavor).
pub fn capture_sink_device() -> (r: VirtualDevice)
    ensures
        r.kind == DeviceKind::Sink,
        r.args.deep_view() == null_sink_args_spec(),
{
    let mut args: Vec<Vec<u8>> = Vec::new();
    args.push(copy_bytes("module-null-sink".as_bytes()));
    args.push(copy_bytes("sink_name=audst".as_bytes()));
    args.push(copy_bytes("sink_properties=device.description=\"Audst\\ REC\"".as_bytes()));
    assert(args.deep_view() =~~= null_sink_args_spec());
    VirtualDevice { kind: DeviceKind::Sink, args }
}

/// The loopback from the capture sink's monitor to the default output
/// (mixing-server flavor).
pub fn loopback_device() -> (r: VirtualDevice)
    ensures
        r.kind == DeviceKind::Loopback,
        r.args.deep_view() == loopback_args_spec(),
{
    let mut args: Vec<Vec<u8>> = Vec::new();
    args.push(copy_bytes("module-loopback".as_bytes()));
    args.push(copy_bytes("source=audst.monitor".as_bytes()));
    args.push(copy_bytes("sink=@DEFAULT_SINK@".as_bytes()));
    assert(args.deep_view() =~~= loopback_args_spec());
    VirtualDevice { kind: DeviceKind::Loopback, args }
}

/// The graph-native capture client (graph flavor).
pub fn graph_source_device() -> (r: VirtualDevice)
    ensures
        r.kind == DeviceKind::Source,
        r.args.deep_view() == graph_source_args_spec(),
{
    let mut args: Vec<Vec<u8>> = Vec::new();
    args.push(copy_bytes("module-jack-source".as_bytes()));
    args.push(copy_bytes("source_name=audst_jack".as_bytes()));
    args.push(copy_bytes("client_name=\"Audst\\ REC\"".as_bytes()));
    assert(args.deep_view() =~~= graph_source_args_spec());
    VirtualDevice { kind: DeviceKind::Source, args }
}

/// The devices the chosen flavor needs, in the order they must be
/// ensured.
pub fn setup_devices(flavor: Flavor) -> (r: Vec<VirtualDevice>)
    ensures
        flavor == Flavor::Mixing ==> r@.len() == 2 && r@[0].kind == DeviceKind::Sink
            && r@[0].args.deep_view() == null_sink_args_spec() && r@[1].kind
            == DeviceKind::Loopback && r@[1].args.deep_view() == loopback_args_spec(),
        flavor == Flavor::Graph ==> r@.len() == 1 && r@[0].kind == DeviceKind::Source
            && r@[0].args.deep_view() == graph_source_args_spec(),
{
    let mut r: Vec<VirtualDevice> = Vec::new();
    match flavor {
        Flavor::Mixing => {
            r.push(capture_sink_device());
            r.push(loopback_device());
        },
        Flavor::Graph => {
            r.push(graph_source_device());
        },
    }
    r
}

/// `ensure` must issue the creation command: no listed object matches
/// every construction argument.
pub open spec fn ensure_needed_spec(lines: Seq<Seq<u8>>, filters: Seq<Seq<u8>>) -> bool {
    matching_ids_spec(lines, filters).len() == 0
}

/// The decision half of `ensure`: whether the creation command must be
/// issued, given the backend's current module listing.
pub fn ensure_needed(listing: &[u8], dev: &VirtualDevice) -> (r: bool)
    ensures
        r == ensure_needed_spec(split_lines_spec(listing@), dev.args.deep_view()),
{
    let ids = matching_ids(listing, &dev.args);
    ids.len() == 0
}

/// The query half of `remove_all`: the names of every listed object
/// matching the construction arguments, each of which is to be
/// unloaded.
pub fn removal_targets(listing: &[u8], dev: &VirtualDevice) -> (r: Vec<Vec<u8>>)
    ensures
        r.deep_view() == matching_ids_spec(split_lines_spec(listing@), dev.args.deep_view()),
{
    matching_ids(listing, &dev.args)
}

/// A listing line that names an object (second field) and on which
/// every filter token occurs.
pub open spec fn line_shows_object(line: Seq<u8>, filters: Seq<Seq<u8>>) -> bool {
    line_matches(line, filters) && field1(line) is Some
}

/// The creation decision, spelled out: `ensure` issues the command
/// exactly when no listing line shows a matching object.
pub proof fn lemma_ensure_needed_iff(lines: Seq<Seq<u8>>, filters: Seq<Seq<u8>>)
    ensures
        ensure_needed_spec(lines, filters) <==> forall|j: int|
            0 <= j < lines.len() ==> !line_shows_object(lines[j], filters),
    decreases lines.len(),
{
    if lines.len() > 0 {
        lemma_ensure_needed_iff(lines.drop_last(), filters);
        assert(forall|j: int| 0 <= j < lines.len() - 1 ==> lines.drop_last()[j] == lines[j]);
        assert(lines.last() == lines[lines.len() - 1]);
    }
}

/// Idempotence of `ensure`: the first call against a listing that
/// shows no matching object issues the creation; once the backend
/// lists an object matching the same arguments, a second call issues
/// nothing.
pub proof fn lemma_ensure_idempotent(
    lines: Seq<Seq<u8>>,
    filters: Seq<Seq<u8>>,
    created: Seq<u8>,
)
    requires
        forall|j: int| 0 <= j < lines.len() ==> !line_shows_object(lines[j], filters),
        line_shows_object(created, filters),
    ensures
        ensure_needed_spec(lines, filters),
        !ensure_needed_spec(lines.push(created), filters),
{
    lemma_ensure_needed_iff(lines, filters);
    assert(lines.push(created).drop_last() =~= lines);
    assert(lines.push(created).last() == created);
}

/// End-to-end idempotence of the mixing-server setup: against a
/// backend with no matching objects, the first run creates the capture
/// sink and the loopback; against the listing the backend then shows,
/// a second run creates neither.
pub proof fn lemma_setup_idempotent(
    lines: Seq<Seq<u8>>,
    sink_line: Seq<u8>,
    loop_line: Seq<u8>,
)
    requires
        forall|j: int| 0 <= j < lines.len() ==> !line_shows_object(lines[j], null_sink_args_spec()),
        forall|j: int| 0 <= j < lines.len() ==> !line_shows_object(lines[j], loopback_args_spec()),
        line_shows_object(sink_line, null_sink_args_spec()),
        line_shows_object(loop_line, loopback_args_spec()),
    ensures
        ensure_needed_spec(lines, null_sink_args_spec()),
        ensure_needed_spec(lines, loopback_args_spec()),
        !ensure_needed_spec(lines.push(sink_line).push(loop_line), null_sink_args_spec()),
        !ensure_needed_spec(lines.push(sink_line).push(loop_line), loopback_args_spec()),
{
    lemma_ensure_needed_iff(lines, null_sink_args_spec());
    lemma_ensure_needed_iff(lines, loopback_args_spec());
    let after = lines.push(sink_line).push(loop_line);
    lemma_ensure_needed_iff(after, null_sink_args_spec());
    lemma_ensure_needed_iff(after, loopback_args_spec());
    assert(after[lines.len() as int] == sink_line);
    assert(after[lines.len() as int + 1] == loop_line);
}

} // verus!
