//! Routing backend adapter: the decisions behind `enumerate`, `bind`
//! and `unbind` for the two backend flavors. Under the mixing server a
//! whole playback stream is moved into the capture sink and moved back
//! to the default output on unbind; under the port graph the capture
//! client's input ports are connected pairwise to the chosen client's
//! output ports, and unbinding disconnects every capture input
//! regardless of its current source.

use vstd::prelude::*;
use vstd::string::StringSliceAdditionalSpecFns;
use crate::text::{
    bytes_eq, copy_bytes, first_pos, first_pos_exec, lemma_first_pos, starts_with_bytes,
    starts_with_seq,
};

verus! {

/// A move-stream command: send stream `id` to sink `dest`.
pub struct MoveStream {
    pub id: u64,
    pub dest: Vec<u8>,
}

/// Binding under the mixing server: move the chosen stream into the
/// capture sink.
pub fn mixing_bind_cmd(id: u64) -> (r: MoveStream)
    ensures
        r.id == id,
        r.dest@ == "audst".spec_bytes(),
{
    MoveStream { id, dest: copy_bytes("audst".as_bytes()) }
}

/// Unbinding under the mixing server: move the previously bound stream
/// back to the default output, then forget it; with nothing bound
/// there is nothing to move. If the remembered stream has meanwhile
/// disappeared, the issued move is treated as a no-op by the caller,
/// not as an error.
pub fn mixing_unbind_cmd(prev: Option<u64>) -> (r: Option<MoveStream>)
    ensures
        prev is None ==> r is None,
        forall|id: u64|
            prev == Some(id) ==> r is Some && r.unwrap().id == id && r.unwrap().dest@
                == "@DEFAULT_SINK@".spec_bytes(),
{
    match prev {
        Some(id) => Some(MoveStream { id, dest: copy_bytes("@DEFAULT_SINK@".as_bytes()) }),
        None => None,
    }
}

/// The owning-client prefix of a port name: everything before the
/// first colon, or the whole name if it has none.
pub open spec fn client_of(name: Seq<u8>) -> Seq<u8> {
    name.subrange(0, first_pos(name, 58))
}

/// The owning-client prefix of a port name.
pub fn client_of_exec(name: &[u8]) -> (r: Vec<u8>)
    ensures
        r@ == client_of(name@),
{
    proof {
        lemma_first_pos(name@, 58);
    }
    let i = first_pos_exec(name, 58);
    copy_bytes(&name[0..i])
}

/// The distinct owning-client prefixes of the listed ports, in the
/// order first encountered: the graph flavor's source candidates.
/// Empty lines of the listing name no port and yield no candidate.
pub open spec fn clients_spec(ports: Seq<Seq<u8>>) -> Seq<Seq<u8>>
    decreases ports.len(),
{
    if ports.len() == 0 {
        Seq::empty()
    } else {
        let rest = clients_spec(ports.drop_last());
        let c = client_of(ports.last());
        if ports.last().len() == 0 || rest.contains(c) {
            rest
        } else {
            rest.push(c)
        }
    }
}

/// Tests whether some element of `have` equals `c`.
fn contains_name(have: &Vec<Vec<u8>>, c: &[u8]) -> (r: bool)
    ensures
        r == have.deep_view().contains(c@),
{
    let n: usize = have.len();
    let mut i: usize = 0;
    while i < n
        invariant
            n == have@.len(),
            0 <= i <= n,
            forall|k: int| 0 <= k < i ==> have.deep_view()[k] != c@,
        decreases n - i,
    {
        assert(have.deep_view()[i as int] == have@[i as int]@);
        if bytes_eq(have[i].as_slice(), c) {
            assert(have.deep_view().contains(c@));
            return true;
        }
        i += 1;
    }
    assert(forall|k: int| 0 <= k < have.deep_view().len() ==> have.deep_view()[k] != c@);
    false
}

/// Enumerates the graph flavor's source candidates: the port list,
/// already filtered by the backend to audio output ports, deduplicated
/// by owning-client prefix in encounter order.
pub fn graph_candidates(ports: &Vec<Vec<u8>>) -> (r: Vec<Vec<u8>>)
    ensures
        r.deep_view() == clients_spec(ports.deep_view()),
{
    let n: usize = ports.len();
    let mut r: Vec<Vec<u8>> = Vec::new();
    assert(r.deep_view() =~= clients_spec(ports.deep_view().subrange(0, 0)));
    let mut i: usize = 0;
    while i < n
        invariant
            n == ports@.len(),
            0 <= i <= n,
            r.deep_view() == clients_spec(ports.deep_view().subrange(0, i as int)),
        decreases n - i,
    {
        let ghost prefix = ports.deep_view().subrange(0, i as int);
        let ghost prefix2 = ports.deep_view().subrange(0, i + 1);
        proof {
            assert(prefix2.drop_last() =~= prefix);
            assert(prefix2.last() == ports.deep_view()[i as int]);
            assert(ports.deep_view()[i as int] == ports@[i as int]@);
        }
        if ports[i].len() > 0 {
            let c = client_of_exec(ports[i].as_slice());
            if !contains_name(&r, c.as_slice()) {
                let ghost old_r = r.deep_view();
                let ghost cv = c@;
                r.push(c);
                proof {
                    assert(r.deep_view() =~~= old_r.push(cv));
                }
            }
        }
        i += 1;
    }
    proof {
        assert(ports.deep_view().subrange(0, n as int) =~= ports.deep_view());
    }
    r
}

/// The fixed name prefix of the capture client's ports in the graph.
pub open spec fn capture_port_prefix() -> Seq<u8> {
    "Audst REC:".spec_bytes()
}

/// The listed ports that belong to the capture client: the ports to
/// disconnect on unbind — disconnecting an already-disconnected port
/// is a no-op, so the reset is idempotent — and, in order, the inputs
/// to connect on bind.
pub open spec fn capture_ports_spec(ports: Seq<Seq<u8>>) -> Seq<Seq<u8>>
    decreases ports.len(),
{
    if ports.len() == 0 {
        Seq::empty()
    } else {
        let rest = capture_ports_spec(ports.drop_last());
        if starts_with_seq(ports.last(), capture_port_prefix()) {
            rest.push(ports.last())
        } else {
            rest
        }
    }
}

/// Selects the capture client's ports from a port listing.
pub fn capture_ports(ports: &Vec<Vec<u8>>) -> (r: Vec<Vec<u8>>)
    ensures
        r.deep_view() == capture_ports_spec(ports.deep_view()),
{
    let n: usize = ports.len();
    let mut r: Vec<Vec<u8>> = Vec::new();
    assert(r.deep_view() =~= capture_ports_spec(ports.deep_view().subrange(0, 0)));
    let mut i: usize = 0;
    while i < n
        invariant
            n == ports@.len(),
            0 <= i <= n,
            r.deep_view() == capture_ports_spec(ports.deep_view().subrange(0, i as int)),
        decreases n - i,
    {
        let ghost prefix = ports.deep_view().subrange(0, i as int);
        let ghost prefix2 = ports.deep_view().subrange(0, i + 1);
        proof {
            assert(prefix2.drop_last() =~= prefix);
            assert(prefix2.last() == ports.deep_view()[i as int]);
            assert(ports.deep_view()[i as int] == ports@[i as int]@);
        }
        if starts_with_bytes(ports[i].as_slice(), "Audst REC:".as_bytes()) {
            let ghost old_r = r.deep_view();
            let c = copy_bytes(ports[i].as_slice());
            let ghost cv = c@;
            r.push(c);
            proof {
                assert(r.deep_view() =~~= old_r.push(cv));
            }
        }
        i += 1;
    }
    proof {
        assert(ports.deep_view().subrange(0, n as int) =~= ports.deep_view());
    }
    r
}

/// The ports owned by one client, in listing order: the chosen
/// candidate's output ports.
pub open spec fn client_ports_spec(ports: Seq<Seq<u8>>, client: Seq<u8>) -> Seq<Seq<u8>>
    decreases ports.len(),
{
    if ports.len() == 0 {
        Seq::empty()
    } else {
        let rest = client_ports_spec(ports.drop_last(), client);
        if client_of(ports.last()) == client {
            rest.push(ports.last())
        } else {
            rest
        }
    }
}

/// Selects one client's ports from a port listing.
pub fn client_ports(ports: &Vec<Vec<u8>>, client: &[u8]) -> (r: Vec<Vec<u8>>)
    ensures
        r.deep_view() == client_ports_spec(ports.deep_view(), client@),
{
    let n: usize = ports.len();
    let mut r: Vec<Vec<u8>> = Vec::new();
    assert(r.deep_view() =~= client_ports_spec(ports.deep_view().subrange(0, 0), client@));
    let mut i: usize = 0;
    while i < n
        invariant
            n == ports@.len(),
            0 <= i <= n,
            r.deep_view() == client_ports_spec(ports.deep_view().subrange(0, i as int), client@),
        decreases n - i,
    {
        let ghost prefix = ports.deep_view().subrange(0, i as int);
        let ghost prefix2 = ports.deep_view().subrange(0, i + 1);
        proof {
            assert(prefix2.drop_last() =~= prefix);
            assert(prefix2.last() == ports.deep_view()[i as int]);
            assert(ports.deep_view()[i as int] == ports@[i as int]@);
        }
        let c = client_of_exec(ports[i].as_slice());
        if bytes_eq(c.as_slice(), client) {
            let ghost old_r = r.deep_view();
            let p = copy_bytes(ports[i].as_slice());
            let ghost pv = p@;
            r.push(p);
            proof {
                assert(r.deep_view() =~~= old_r.push(pv));
            }
        }
        i += 1;
    }
    proof {
        assert(ports.deep_view().subrange(0, n as int) =~= ports.deep_view());
    }
    r
}

/// One port-pair connection: source output into capture input.
pub struct ConnectPair {
    pub src: Vec<u8>,
    pub dst: Vec<u8>,
}

/// Binding under the port graph: the i-th capture input is connected
/// to the i-th output of the chosen client; whichever side has fewer
/// ports leaves the excess unconnected.
pub fn connect_pairs(inputs: &Vec<Vec<u8>>, outputs: &Vec<Vec<u8>>) -> (r: Vec<ConnectPair>)
    ensures
        r@.len() == (if inputs@.len() <= outputs@.len() {
            inputs@.len()
        } else {
            outputs@.len()
        }),
        forall|k: int|
            0 <= k < r@.len() ==> r@[k].src@ == outputs.deep_view()[k] && r@[k].dst@
                == inputs.deep_view()[k],
{
    let n: usize = if inputs.len() <= outputs.len() {
        inputs.len()
    } else {
        outputs.len()
    };
    let mut r: Vec<ConnectPair> = Vec::new();
    let mut i: usize = 0;
    while i < n
        invariant
            n <= inputs@.len(),
            n <= outputs@.len(),
            0 <= i <= n,
            r@.len() == i,
            forall|k: int|
                0 <= k < i ==> r@[k].src@ == outputs.deep_view()[k] && r@[k].dst@
                    == inputs.deep_view()[k],
        decreases n - i,
    {
        let src = copy_bytes(outputs[i].as_slice());
        let dst = copy_bytes(inputs[i].as_slice());
        r.push(ConnectPair { src, dst });
        assert(outputs.deep_view()[i as int] == outputs@[i as int]@);
        assert(inputs.deep_view()[i as int] == inputs@[i as int]@);
        i += 1;
    }
    r
}

} // verus!
