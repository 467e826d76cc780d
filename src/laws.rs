use vstd::prelude::*;
use crate::quality::{decode_quality_spec, Quality};
use crate::qos::{
    after_attach, after_close, after_detach, after_open, after_quality, after_support,
    clamp_fps, default_state, default_viewer, effective_fps, has_output, has_viewer,
    latest_request, lemma_latest_request, output_index, resolved_quality, state_wf, vbr_active,
    with_fixed_fps, QosState, Viewer, FPS, MAX_FPS, MIN_FPS,
};

verus! {

/// The state after a sequence of quality requests `(viewer, wire value, time)`, in order.
pub open spec fn apply_quality_calls(s: QosState, calls: Seq<(i32, i32, i64)>) -> QosState
    decreases calls.len(),
{
    if calls.len() == 0 {
        s
    } else {
        let c = calls.last();
        after_quality(apply_quality_calls(s, calls.drop_last()), c.0, c.1, c.2)
    }
}

/// Every stored request is older than `t`.
pub open spec fn all_older(vs: Seq<Viewer>, t: i64) -> bool {
    forall|j: int|
        0 <= j < vs.len() && (#[trigger] vs[j]).quality is Some ==> (vs[j].quality->0).0 < t
}

/// Viewer `id` holds the request `(t, q)`, and every other stored request is older.
pub open spec fn holds_latest(vs: Seq<Viewer>, id: i32, t: i64, q: Quality) -> bool {
    &&& has_viewer(vs, id)
    &&& forall|j: int| 0 <= j < vs.len() && (#[trigger] vs[j]).id == id ==> vs[j].quality == Some((t, q))
    &&& forall|j: int|
        0 <= j < vs.len() && (#[trigger] vs[j]).id != id && vs[j].quality is Some ==> (
        vs[j].quality->0).0 < t
}

proof fn lemma_resolves_to_holder(vs: Seq<Viewer>, id: i32, t: i64, q: Quality)
    requires
        holds_latest(vs, id, t, q),
    ensures
        resolved_quality(vs) == q,
{
    lemma_latest_request(vs);
    let i = choose|i: int| 0 <= i < vs.len() && vs[i].id == id;
    assert(vs[i].quality == Some((t, q)));
    match latest_request(vs) {
        Some(r) => {
            let k = choose|k: int| 0 <= k < vs.len() && (#[trigger] vs[k]).quality == Some(r);
            assert(vs[i].quality is Some);
            assert(t <= r.0);
            if vs[k].id != id {
                assert((vs[k].quality->0).0 < t);
            }
        },
        None => {
            assert(vs[i].quality is None);
        },
    }
}

proof fn lemma_calls(s: QosState, calls: Seq<(i32, i32, i64)>, m: int)
    requires
        0 <= m < calls.len(),
        has_viewer(s.viewers, calls[m].0),
        all_older(s.viewers, calls[m].2),
        forall|j: int| 0 <= j < calls.len() && j != m ==> (#[trigger] calls[j]).2 < calls[m].2,
        forall|j: int| m < j < calls.len() ==> (#[trigger] calls[j]).0 != calls[m].0,
    ensures
        holds_latest(
            apply_quality_calls(s, calls).viewers,
            calls[m].0,
            calls[m].2,
            decode_quality_spec(calls[m].1),
        ),
    decreases calls.len(),
{
    let id = calls[m].0;
    let t = calls[m].2;
    let q = decode_quality_spec(calls[m].1);
    let n = calls.len() - 1;
    let pre = calls.drop_last();
    let c = calls.last();
    assert(c == calls[n]);
    if m == n {
        lemma_calls_before(s, pre, id, t);
        let vs = apply_quality_calls(s, pre).viewers;
        let ws = apply_quality_calls(s, calls).viewers;
        assert(ws == vs.map_values(
            |v: Viewer|
                if v.id == id {
                    Viewer { quality: Some((t, q)), ..v }
                } else {
                    v
                },
        ));
        let i = choose|i: int| 0 <= i < vs.len() && vs[i].id == id;
        assert(ws[i].id == id);
    } else {
        assert forall|j: int| 0 <= j < pre.len() && j != m implies (#[trigger] pre[j]).2 < pre[m].2 by {
            assert(pre[j] == calls[j]);
        }
        assert forall|j: int| m < j < pre.len() implies (#[trigger] pre[j]).0 != pre[m].0 by {
            assert(pre[j] == calls[j]);
        }
        lemma_calls(s, pre, m);
        let vs = apply_quality_calls(s, pre).viewers;
        let ws = apply_quality_calls(s, calls).viewers;
        assert(c.0 != id);
        assert(c.2 < t);
        let i = choose|i: int| 0 <= i < vs.len() && vs[i].id == id;
        assert(ws[i].id == id);
        assert forall|j: int| 0 <= j < ws.len() && (#[trigger] ws[j]).id == id implies ws[j].quality
            == Some((t, q)) by {
            assert(vs[j].id == id);
        }
        assert forall|j: int|
            0 <= j < ws.len() && (#[trigger] ws[j]).id != id && ws[j].quality is Some implies (
            ws[j].quality->0).0 < t by {
            assert(vs[j].id == ws[j].id);
        }
    }
}

proof fn lemma_calls_before(s: QosState, calls: Seq<(i32, i32, i64)>, id: i32, t: i64)
    requires
        has_viewer(s.viewers, id),
        all_older(s.viewers, t),
        forall|j: int| 0 <= j < calls.len() ==> (#[trigger] calls[j]).2 < t,
    ensures
        has_viewer(apply_quality_calls(s, calls).viewers, id),
        all_older(apply_quality_calls(s, calls).viewers, t),
    decreases calls.len(),
{
    if calls.len() > 0 {
        let pre = calls.drop_last();
        assert forall|j: int| 0 <= j < pre.len() implies (#[trigger] pre[j]).2 < t by {
            assert(pre[j] == calls[j]);
        }
        lemma_calls_before(s, pre, id, t);
        let vs = apply_quality_calls(s, pre).viewers;
        let ws = apply_quality_calls(s, calls).viewers;
        let c = calls.last();
        assert(c == calls[calls.len() - 1]);
        let i = choose|i: int| 0 <= i < vs.len() && vs[i].id == id;
        assert(ws[i].id == id);
        assert forall|j: int| 0 <= j < ws.len() && (#[trigger] ws[j]).quality is Some implies (
        ws[j].quality->0).0 < t by {
            if vs[j].id != c.0 {
                assert(ws[j] == vs[j]);
            }
        }
    }
}

/// The latest request wins: after any sequence of quality requests, the resolved quality
/// is the one asked for by the request with the greatest timestamp, whatever the order in
/// which the requests came and whichever viewer made them. The requesting viewer must be
/// connected, and no later request of its own may overwrite that one.
pub proof fn law_latest_request_wins(s: QosState, calls: Seq<(i32, i32, i64)>, m: int)
    requires
        state_wf(s),
        0 <= m < calls.len(),
        has_viewer(s.viewers, calls[m].0),
        all_older(s.viewers, calls[m].2),
        forall|j: int| 0 <= j < calls.len() && j != m ==> (#[trigger] calls[j]).2 < calls[m].2,
        forall|j: int| m < j < calls.len() ==> (#[trigger] calls[j]).0 != calls[m].0,
    ensures
        resolved_quality(apply_quality_calls(s, calls).viewers) == decode_quality_spec(calls[m].1),
{
    lemma_calls(s, calls, m);
    lemma_resolves_to_holder(
        apply_quality_calls(s, calls).viewers,
        calls[m].0,
        calls[m].2,
        decode_quality_spec(calls[m].1),
    );
}

/// Attaching an output and marking it unable to change quality turns variable bitrate off;
/// detaching it again restores the outputs, and so the variable-bitrate state, as they were.
pub proof fn law_vbr_gate(s: QosState, name: Seq<char>)
    requires
        state_wf(s),
        !has_output(s.outputs, name),
    ensures
        !vbr_active(after_support(after_attach(s, name), name, false)),
        after_detach(after_support(after_attach(s, name), name, false), name).outputs
            == s.outputs,
        vbr_active(after_detach(after_support(after_attach(s, name), name, false), name))
            == vbr_active(s),
{
    let a = after_attach(s, name);
    let b = after_support(a, name, false);
    let n = s.outputs.len() as int;
    assert(a.outputs == s.outputs.push(crate::qos::default_output(name)));
    assert(b.outputs[n].name == name);
    assert(!b.outputs[n].support_changing_quality);
    assert(has_output(b.outputs, name));
    let k = output_index(b.outputs, name);
    if k != n {
        assert(b.outputs[k].name == s.outputs[k].name);
        assert(has_output(s.outputs, name));
    }
    assert(b.outputs.remove(n) =~= s.outputs);
}

/// Disconnecting the last viewer returns the whole state to its defaults (fps, ratio,
/// stored bitrate, override and all), and a viewer that connects next starts from them.
pub proof fn law_last_close_resets(s: QosState, id: i32, next: i32, abr_enabled: bool)
    requires
        state_wf(s),
        s.viewers.len() == 1,
        s.viewers[0].id == id,
    ensures
        after_close(s, id) == default_state(s.mode),
        after_open(after_close(s, id), next, abr_enabled) == (QosState {
            viewers: seq![default_viewer(next)],
            abr_enabled,
            ..default_state(s.mode)
        }),
{
    assert(has_viewer(s.viewers, id));
    assert(s.viewers.remove(crate::qos::viewer_index(s.viewers, id)).len() == 0);
    assert(Seq::<Viewer>::empty().push(default_viewer(next)) =~= seq![default_viewer(next)]);
}

/// A frame-rate override is limited to `[MIN_FPS, MAX_FPS]` and takes effect at once;
/// clearing it brings back the default frame rate.
pub proof fn law_fixed_fps(s: QosState, fps: u32)
    requires
        state_wf(s),
    ensures
        effective_fps(with_fixed_fps(s, Some(fps))) == clamp_fps(fps),
        MIN_FPS <= effective_fps(with_fixed_fps(s, Some(fps))) <= MAX_FPS,
        effective_fps(with_fixed_fps(with_fixed_fps(s, Some(fps)), None)) == FPS,
{
}

} // verus!
