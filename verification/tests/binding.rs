//! Tests of the selector state machine and the routing backend
//! adapter: rebind safety, rescan non-destructiveness and cursor
//! restoration, and the two flavors' bind/unbind plans.

use audst::routing::{
    capture_ports, client_of_exec, client_ports, connect_pairs, graph_candidates,
    mixing_bind_cmd, mixing_unbind_cmd,
};
use audst::selector::{
    candidates_from_clients, candidates_from_streams, menu_labels, present, rebound, resolve,
    selector_new, start, Candidate, RouteOp, SelState, Selection, SourceRef,
};
use audst::streams::StreamEntry;

fn sample_candidates() -> Vec<Candidate> {
    let entries = vec![
        StreamEntry { id: 5, label: b"Firefox".to_vec() },
        StreamEntry { id: 9, label: b"mpv".to_vec() },
    ];
    candidates_from_streams(&entries)
}

/// Drives one full prompt round and returns the operations issued.
fn one_round(sel: &mut audst::selector::Selector, cands: &Vec<Candidate>, choice: Selection) -> Vec<RouteOp> {
    present(sel);
    let ops = resolve(sel, cands, choice);
    if matches!(sel.state, SelState::Rebinding) {
        rebound(sel);
    }
    ops
}

#[test]
fn menu_appends_none_and_rescan_last() {
    let cands = sample_candidates();
    let menu = menu_labels(&cands);
    assert_eq!(menu.len(), 4);
    assert_eq!(menu[0], b"Firefox".to_vec());
    assert_eq!(menu[1], b"mpv".to_vec());
    assert_eq!(menu[2], b"none".to_vec());
    assert_eq!(menu[3], b"rescan".to_vec());
}

#[test]
fn rebind_safety_over_a_selection_history() {
    let cands = sample_candidates();
    let mut sel = selector_new();
    start(&mut sel);
    let mut trace: Vec<RouteOp> = Vec::new();
    // bind Firefox, rescan, bind mpv, none, bind Firefox again, cancel
    let history = vec![
        Selection::Picked(0),
        Selection::Picked(3),
        Selection::Picked(1),
        Selection::Picked(2),
        Selection::Picked(0),
        Selection::Cancelled,
    ];
    let mut transitions = 0;
    for choice in history {
        if !matches!(choice, Selection::Picked(3)) {
            transitions += 1;
        }
        trace.extend(one_round(&mut sel, &cands, choice));
    }
    let resets = trace.iter().filter(|op| matches!(op, RouteOp::Reset)).count();
    assert_eq!(resets, transitions);
    // no two binds without an intervening reset
    let mut last_was_bind = false;
    for op in &trace {
        match op {
            RouteOp::Bind(_) => {
                assert!(!last_was_bind);
                last_was_bind = true;
            },
            RouteOp::Reset => {
                last_was_bind = false;
            },
        }
    }
    assert!(matches!(sel.state, SelState::Cancelled));
    assert!(sel.bound.is_none());
}

#[test]
fn rescan_issues_nothing_and_keeps_the_binding() {
    let cands = sample_candidates();
    let mut sel = selector_new();
    start(&mut sel);
    let ops = one_round(&mut sel, &cands, Selection::Picked(1));
    assert_eq!(ops.len(), 2);
    let ops = one_round(&mut sel, &cands, Selection::Picked(3));
    assert_eq!(ops.len(), 0);
    assert!(matches!(sel.state, SelState::Listing));
    match &sel.bound {
        Some(SourceRef::Stream(id)) => assert_eq!(*id, 9),
        _ => panic!("binding lost by rescan"),
    }
}

#[test]
fn choosing_none_resets_and_clears() {
    let cands = sample_candidates();
    let mut sel = selector_new();
    start(&mut sel);
    one_round(&mut sel, &cands, Selection::Picked(0));
    let ops = one_round(&mut sel, &cands, Selection::Picked(2));
    assert_eq!(ops.len(), 1);
    assert!(matches!(ops[0], RouteOp::Reset));
    assert!(sel.bound.is_none());
}

#[test]
fn cursor_restored_on_cancellation() {
    let cands = sample_candidates();
    let mut sel = selector_new();
    start(&mut sel);
    present(&mut sel);
    assert!(!sel.cursor_visible);
    resolve(&mut sel, &cands, Selection::Cancelled);
    assert!(sel.cursor_visible);
    assert!(matches!(sel.state, SelState::Cancelled));
}

#[test]
fn cursor_restored_when_the_prompt_fails() {
    let cands = sample_candidates();
    let mut sel = selector_new();
    start(&mut sel);
    present(&mut sel);
    resolve(&mut sel, &cands, Selection::Failed);
    assert!(sel.cursor_visible);
    assert!(matches!(sel.state, SelState::Cancelled));
}

#[test]
fn cursor_restored_on_an_ordinary_choice() {
    let cands = sample_candidates();
    let mut sel = selector_new();
    start(&mut sel);
    present(&mut sel);
    resolve(&mut sel, &cands, Selection::Picked(0));
    assert!(sel.cursor_visible);
}

#[test]
fn mixing_bind_targets_the_capture_sink() {
    let cmd = mixing_bind_cmd(42);
    assert_eq!(cmd.id, 42);
    assert_eq!(cmd.dest, b"audst".to_vec());
}

#[test]
fn mixing_unbind_reverts_to_default_or_nothing() {
    let cmd = mixing_unbind_cmd(Some(42)).unwrap();
    assert_eq!(cmd.id, 42);
    assert_eq!(cmd.dest, b"@DEFAULT_SINK@".to_vec());
    assert!(mixing_unbind_cmd(None).is_none());
}

#[test]
fn client_prefix_stops_at_the_colon() {
    assert_eq!(client_of_exec(b"Firefox:output_FL"), b"Firefox".to_vec());
    assert_eq!(client_of_exec(b"noport"), b"noport".to_vec());
}

#[test]
fn graph_candidates_dedup_by_client() {
    let ports = vec![
        b"Firefox:output_FL".to_vec(),
        b"Firefox:output_FR".to_vec(),
        b"mpv:out_0".to_vec(),
        b"Firefox:output_RL".to_vec(),
    ];
    let cands = graph_candidates(&ports);
    assert_eq!(cands.len(), 2);
    assert_eq!(cands[0], b"Firefox".to_vec());
    assert_eq!(cands[1], b"mpv".to_vec());
}

#[test]
fn graph_candidates_skip_empty_lines() {
    let ports = vec![b"Firefox:output_FL".to_vec(), b"".to_vec()];
    let cands = graph_candidates(&ports);
    assert_eq!(cands.len(), 1);
    assert_eq!(cands[0], b"Firefox".to_vec());
}

#[test]
fn capture_ports_match_the_fixed_prefix() {
    let ports = vec![
        b"Audst REC:input_1".to_vec(),
        b"Firefox:output_FL".to_vec(),
        b"Audst REC:input_2".to_vec(),
    ];
    let ins = capture_ports(&ports);
    assert_eq!(ins.len(), 2);
    assert_eq!(ins[0], b"Audst REC:input_1".to_vec());
    assert_eq!(ins[1], b"Audst REC:input_2".to_vec());
}

#[test]
fn client_ports_belong_to_one_client() {
    let ports = vec![
        b"Firefox:output_FL".to_vec(),
        b"mpv:out_0".to_vec(),
        b"Firefox:output_FR".to_vec(),
    ];
    let outs = client_ports(&ports, b"Firefox");
    assert_eq!(outs.len(), 2);
    assert_eq!(outs[0], b"Firefox:output_FL".to_vec());
    assert_eq!(outs[1], b"Firefox:output_FR".to_vec());
}

#[test]
fn connect_pairs_leave_excess_inputs_unconnected() {
    let inputs = vec![b"Audst REC:input_1".to_vec(), b"Audst REC:input_2".to_vec()];
    let outputs = vec![b"mpv:out_0".to_vec()];
    let pairs = connect_pairs(&inputs, &outputs);
    assert_eq!(pairs.len(), 1);
    assert_eq!(pairs[0].src, b"mpv:out_0".to_vec());
    assert_eq!(pairs[0].dst, b"Audst REC:input_1".to_vec());
}

#[test]
fn graph_flavor_candidates_carry_their_own_label() {
    let clients = vec![b"Firefox".to_vec()];
    let cands = candidates_from_clients(&clients);
    assert_eq!(cands.len(), 1);
    assert_eq!(cands[0].label, b"Firefox".to_vec());
    match &cands[0].key {
        SourceRef::Client(name) => assert_eq!(*name, b"Firefox".to_vec()),
        _ => panic!("wrong candidate key"),
    }
}
