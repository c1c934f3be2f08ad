//! Laws of the engine over whole runs: what every operation keeps, what a
//! press and its release have in common, and what releasing every key
//! leaves behind.
use vstd::prelude::*;
use crate::action::Action;
use crate::key::KeyId;
use crate::mapping::{MappingView, valid_view};
use crate::pad_state::neutral_pad;
use crate::engine::{
    EngineView,
    Decision,
    Mode,
    Owner,
    UiEvent,
    ForceReason,
    DisabledReason,
    view_wf,
    no_decision,
    pad_of_held,
    on_key,
    toggle,
    force_keyboard,
    reset_held,
    start_binding,
    cancel_binding,
    expire,
    disable,
    enable,
    set_mapping,
    lemma_no_pad_neutral,
    lemma_on_key_wf,
    lemma_toggle_wf,
    lemma_force_keyboard_wf,
    lemma_reset_held_wf,
    lemma_start_binding_wf,
    lemma_cancel_binding_wf,
    lemma_expire_wf,
    lemma_disable_wf,
    lemma_enable_wf,
    lemma_set_mapping_wf,
    BindingCancel,
    BINDING_TIMEOUT_MS,
};

verus! {

/// One call into the engine, as the window and the hook thread make them.
pub enum EngineOp {
    Key { key: KeyId, down: bool, now_ms: u64 },
    Toggle { now_ms: u64 },
    ForceKeyboard { reason: ForceReason },
    ResetHeld { reason: ForceReason },
    StartBinding { action: Action, now_ms: u64 },
    CancelBinding { now_ms: u64 },
    Tick { now_ms: u64 },
    Disable { reason: DisabledReason },
    Enable,
    SetMapping { mapping: MappingView },
}

/// What one call does; a refused `start_binding` decides nothing.
pub open spec fn step(v: EngineView, op: EngineOp) -> (EngineView, Decision) {
    match op {
        EngineOp::Key { key, down, now_ms } => on_key(v, key, down, now_ms),
        EngineOp::Toggle { now_ms } => toggle(v, now_ms),
        EngineOp::ForceKeyboard { reason } => force_keyboard(v, reason),
        EngineOp::ResetHeld { reason } => reset_held(v, reason),
        EngineOp::StartBinding { action, now_ms } => {
            let (v1, r) = start_binding(v, action, now_ms);
            (
                v1,
                match r {
                    Ok(d) => d,
                    Err(_) => no_decision(),
                },
            )
        },
        EngineOp::CancelBinding { now_ms } => cancel_binding(v, now_ms),
        EngineOp::Tick { now_ms } => expire(v, now_ms),
        EngineOp::Disable { reason } => disable(v, reason),
        EngineOp::Enable => enable(v),
        EngineOp::SetMapping { mapping } => set_mapping(v, mapping),
    }
}

/// The call can be made at all: a new mapping must be a valid one.
pub open spec fn op_ok(op: EngineOp) -> bool {
    match op {
        EngineOp::SetMapping { mapping } => valid_view(mapping),
        _ => true,
    }
}

/// The state after a run of calls.
pub open spec fn run(v: EngineView, ops: Seq<EngineOp>) -> EngineView
    decreases ops.len(),
{
    if ops.len() == 0 {
        v
    } else {
        run(step(v, ops[0]).0, ops.drop_first())
    }
}

/// Every call keeps the engine's invariant.
pub proof fn lemma_step_keeps_invariant(v: EngineView, op: EngineOp)
    requires
        view_wf(v),
        op_ok(op),
    ensures
        view_wf(step(v, op).0),
{
    match op {
        EngineOp::Key { key, down, now_ms } => lemma_on_key_wf(v, key, down, now_ms),
        EngineOp::Toggle { now_ms } => lemma_toggle_wf(v, now_ms),
        EngineOp::ForceKeyboard { reason } => lemma_force_keyboard_wf(v, reason),
        EngineOp::ResetHeld { reason } => lemma_reset_held_wf(v, reason),
        EngineOp::StartBinding { action, now_ms } => lemma_start_binding_wf(v, action, now_ms),
        EngineOp::CancelBinding { now_ms } => lemma_cancel_binding_wf(v, now_ms),
        EngineOp::Tick { now_ms } => lemma_expire_wf(v, now_ms),
        EngineOp::Disable { reason } => lemma_disable_wf(v, reason),
        EngineOp::Enable => lemma_enable_wf(v),
        EngineOp::SetMapping { mapping } => lemma_set_mapping_wf(v, mapping),
    }
}

/// Every run of calls keeps the engine's invariant.
pub proof fn lemma_run_keeps_invariant(v: EngineView, ops: Seq<EngineOp>)
    requires
        view_wf(v),
        forall|i: int| 0 <= i < ops.len() ==> op_ok(#[trigger] ops[i]),
    ensures
        view_wf(run(v, ops)),
    decreases ops.len(),
{
    if ops.len() > 0 {
        lemma_step_keeps_invariant(v, ops[0]);
        assert forall|i: int| 0 <= i < ops.drop_first().len() implies op_ok(
            #[trigger] ops.drop_first()[i],
        ) by {
            assert(ops.drop_first()[i] == ops[i + 1]);
        }
        lemma_run_keeps_invariant(step(v, ops[0]).0, ops.drop_first());
    }
}

/// Outside Gamepad no key drives the pad: the pad state computed from the
/// held keys, and the one handed out last, are neutral.
pub proof fn lemma_pad_neutral_outside_gamepad(v: EngineView)
    requires
        view_wf(v),
        v.mode != Mode::Gamepad,
    ensures
        pad_of_held(v.held) == neutral_pad(),
        v.last_pad == neutral_pad(),
{
    lemma_no_pad_neutral(v.held);
}

/// The calls that leave the record of `k` alone: no event of `k` itself
/// and no `reset_held`, which forgets every key.
pub open spec fn leaves_key(op: EngineOp, k: KeyId) -> bool {
    match op {
        EngineOp::Key { key, .. } => key != k,
        EngineOp::ResetHeld { .. } => false,
        _ => true,
    }
}

/// `k` is still held in `b` as the same press, with an owner on the same
/// side of the OS as in `a`.
pub open spec fn same_press(a: EngineView, b: EngineView, k: KeyId) -> bool {
    &&& a.held.contains_key(k)
    &&& b.held.contains_key(k)
    &&& b.held[k].seq == a.held[k].seq
    &&& (b.held[k].owner == Owner::Os) == (a.held[k].owner == Owner::Os)
}

#[verifier::spinoff_prover]
proof fn lemma_step_keeps_press(v: EngineView, op: EngineOp, k: KeyId)
    requires
        view_wf(v),
        op_ok(op),
        leaves_key(op, k),
        v.held.contains_key(k),
    ensures
        same_press(v, step(v, op).0, k),
{
    match op {
        EngineOp::Key { key, down, now_ms } => {
            let e = expire(v, now_ms).0;
            assert(same_press(v, e, k));
        },
        _ => {},
    }
}

/// A key-down of a mappable key leaves it held, and the event is hidden
/// from the OS exactly when the recorded owner is not the OS.
#[verifier::spinoff_prover]
pub proof fn lemma_press_records_decision(v: EngineView, k: KeyId, now_ms: u64)
    requires
        view_wf(v),
        k.spec_is_mappable(),
    ensures
        ({
            let (v1, d) = on_key(v, k, true, now_ms);
            v1.held.contains_key(k) && d.suppress == (v1.held[k].owner != Owner::Os)
        }),
{
    lemma_expire_wf(v, now_ms);
}

/// A key-up forgets the key, and is hidden from the OS exactly when the
/// key was held with an owner other than the OS. A key-up of a key the
/// engine does not hold goes to the OS.
#[verifier::spinoff_prover]
pub proof fn lemma_release_follows_record(v: EngineView, k: KeyId, now_ms: u64)
    requires
        view_wf(v),
    ensures
        ({
            let (v1, d) = on_key(v, k, false, now_ms);
            &&& v1.held == v.held.remove(k)
            &&& d.suppress == (v.held.contains_key(k) && v.held[k].owner != Owner::Os)
            &&& d.ui is None || d.ui == Some(
                UiEvent::BindingCancelled { reason: crate::engine::BindingCancel::Timeout },
            )
        }),
{
    let e = expire(v, now_ms).0;
    assert(e.held == v.held);
    if !v.held.contains_key(k) {
        assert(v.held.remove(k) =~= v.held);
    }
}

/// Key-ups of the given keys, one after another, each at its own time.
pub open spec fn release_keys(v: EngineView, ups: Seq<(KeyId, u64)>) -> EngineView
    decreases ups.len(),
{
    if ups.len() == 0 {
        v
    } else {
        release_keys(on_key(v, ups[0].0, false, ups[0].1).0, ups.drop_first())
    }
}

/// Releasing every held key, in any order and at any times, leaves no key
/// held and the pad neutral — the handed-out state included — whatever
/// mode the engine is in.
pub proof fn lemma_release_all(v: EngineView, ups: Seq<(KeyId, u64)>)
    requires
        view_wf(v),
        forall|k: KeyId| #[trigger]
            v.held.contains_key(k) ==> exists|i: int| 0 <= i < ups.len() && ups[i].0 == k,
    ensures
        view_wf(release_keys(v, ups)),
        release_keys(v, ups).held == Map::<KeyId, crate::engine::HeldKey>::empty(),
        pad_of_held(release_keys(v, ups).held) == neutral_pad(),
        release_keys(v, ups).last_pad == neutral_pad(),
    decreases ups.len(),
{
    if ups.len() == 0 {
        assert(v.held =~= Map::<KeyId, crate::engine::HeldKey>::empty());
        lemma_no_pad_neutral(v.held);
    } else {
        let (k0, t0) = ups[0];
        let w = on_key(v, k0, false, t0).0;
        lemma_on_key_wf(v, k0, false, t0);
        lemma_release_follows_record(v, k0, t0);
        let rest = ups.drop_first();
        assert forall|k: KeyId| #[trigger]
            w.held.contains_key(k) implies exists|i: int| 0 <= i < rest.len() && rest[i].0 == k by {
            let i = choose|i: int| 0 <= i < ups.len() && ups[i].0 == k;
            assert(i != 0);
            assert(rest[i - 1] == ups[i]);
        }
        lemma_release_all(w, rest);
    }
}

/// After any run of calls from a fresh engine, releasing every key that
/// is still held leaves no key held and the pad neutral.
pub proof fn lemma_release_all_after_any_run(
    mapping: MappingView,
    ops: Seq<EngineOp>,
    ups: Seq<(KeyId, u64)>,
)
    requires
        valid_view(mapping),
        forall|i: int| 0 <= i < ops.len() ==> op_ok(#[trigger] ops[i]),
        forall|k: KeyId| #[trigger]
            run(fresh(mapping), ops).held.contains_key(k) ==> exists|i: int|
                0 <= i < ups.len() && ups[i].0 == k,
    ensures
        release_keys(run(fresh(mapping), ops), ups).held == Map::<
            KeyId,
            crate::engine::HeldKey,
        >::empty(),
        release_keys(run(fresh(mapping), ops), ups).last_pad == neutral_pad(),
{
    lemma_fresh_wf(mapping);
    lemma_run_keeps_invariant(fresh(mapping), ops);
    lemma_release_all(run(fresh(mapping), ops), ups);
}

/// The state of a new engine (see [`crate::engine::Engine::new`]).
pub open spec fn fresh(mapping: MappingView) -> EngineView {
    EngineView {
        mode: Mode::Disabled { reason: DisabledReason::PadNotConnected },
        mapping,
        held: Map::empty(),
        seq: 0,
        last_pad: neutral_pad(),
    }
}

/// A new engine satisfies the invariant.
pub proof fn lemma_fresh_wf(mapping: MappingView)
    requires
        valid_view(mapping),
    ensures
        view_wf(fresh(mapping)),
{
    lemma_no_pad_neutral(Map::<KeyId, crate::engine::HeldKey>::empty());
}

/// Autorepeat of a held key (not a stale one) repeats the decision of its
/// press and starts nothing: besides what an expired binding does, only
/// the key's time changes.
#[verifier::spinoff_prover]
pub proof fn lemma_autorepeat_changes_nothing(v: EngineView, k: KeyId, now_ms: u64)
    requires
        view_wf(v),
        v.held.contains_key(k),
        !crate::engine::is_stale(v.held[k], now_ms),
    ensures
        ({
            let (e, expired) = expire(v, now_ms);
            let (v1, d) = on_key(v, k, true, now_ms);
            &&& v1 == EngineView {
                held: v.held.insert(k, crate::engine::HeldKey { last_ms: now_ms, ..v.held[k] }),
                ..e
            }
            &&& d == Decision { suppress: v.held[k].owner != Owner::Os, ..expired }
        }),
{
    assert(expire(v, now_ms).0.held == v.held);
}

/// What a notice says of the mode: a mode change names the new mode; a
/// saved or ended binding leaves binding; every other notice, and no
/// notice, comes with the mode unchanged.
pub open spec fn notice_fits(ui: Option<UiEvent>, before: Mode, after: Mode) -> bool {
    match ui {
        Some(UiEvent::ModeChanged { mode, .. }) => mode == after && after != before,
        Some(UiEvent::BindingSaved { .. }) => before is Binding && after == Mode::Keyboard,
        Some(UiEvent::BindingCancelled { .. }) => before is Binding && !(after is Binding),
        _ => after == before,
    }
}

/// Every call tells the window of a change of mode, and only of a real
/// one; a change of mode hands out the pad state.
#[verifier::spinoff_prover]
pub proof fn lemma_mode_change_announced(v: EngineView, op: EngineOp)
    requires
        view_wf(v),
        op_ok(op),
    ensures
        ({
            let (v1, d) = step(v, op);
            &&& notice_fits(d.ui, v.mode, v1.mode)
            &&& v1.mode != v.mode ==> d.pad == Some(v1.last_pad)
        }),
{
    lemma_step_keeps_invariant(v, op);
    match op {
        EngineOp::Key { key, down, now_ms } => {
            lemma_expire_wf(v, now_ms);
            let e = expire(v, now_ms).0;
            if e.mode != Mode::Gamepad {
                lemma_no_pad_neutral(e.held);
            }
        },
        EngineOp::StartBinding { action, now_ms } => {
            lemma_expire_wf(v, now_ms);
        },
        _ => {},
    }
}

/// The pad state handed out is always the one computed from the held
/// keys: a call hands out exactly the engine's new pad state, or hands out
/// nothing and the state did not change. Forcing Keyboard hands it out
/// always.
#[verifier::spinoff_prover]
pub proof fn lemma_pad_handed_out(v: EngineView, op: EngineOp)
    requires
        view_wf(v),
        op_ok(op),
    ensures
        ({
            let (v1, d) = step(v, op);
            &&& v1.last_pad == pad_of_held(v1.held)
            &&& match d.pad {
                Some(p) => p == v1.last_pad,
                None => v1.last_pad == v.last_pad,
            }
            &&& (op is ForceKeyboard || op is ResetHeld) ==> d.pad == Some(v1.last_pad)
        }),
{
    lemma_step_keeps_invariant(v, op);
    match op {
        EngineOp::Key { key, down, now_ms } => {
            lemma_expire_wf(v, now_ms);
        },
        EngineOp::StartBinding { action, now_ms } => {
            lemma_expire_wf(v, now_ms);
        },
        EngineOp::CancelBinding { now_ms } => {
            lemma_expire_wf(v, now_ms);
        },
        EngineOp::Toggle { now_ms } => {
            lemma_expire_wf(v, now_ms);
        },
        _ => {},
    }
}

/// Gamepad is entered only by the user: by the toggle key or the window's
/// toggle — never by a pad coming back, a binding, or any forced step.
#[verifier::spinoff_prover]
pub proof fn lemma_gamepad_only_by_toggle(v: EngineView, op: EngineOp)
    requires
        view_wf(v),
    ensures
        (step(v, op).0.mode == Mode::Gamepad && v.mode != Mode::Gamepad) ==> (op is Toggle || (
        op matches EngineOp::Key { key, down, .. } && down && key == v.mapping.toggle)),
{
}

/// The fail-safe steps end outside Gamepad: forcing Keyboard, forgetting
/// the held keys, losing the pad, a new mapping. Forgetting the held keys
/// also leaves the pad neutral.
#[verifier::spinoff_prover]
pub proof fn lemma_fail_safe_leaves_gamepad(v: EngineView, op: EngineOp)
    requires
        view_wf(v),
        op_ok(op),
        op is ForceKeyboard || op is ResetHeld || op is Disable || op is SetMapping,
    ensures
        step(v, op).0.mode != Mode::Gamepad,
        op is ResetHeld ==> step(v, op).0.held == Map::<KeyId, crate::engine::HeldKey>::empty()
            && step(v, op).0.last_pad == neutral_pad(),
{
    lemma_step_keeps_invariant(v, op);
    if op is ResetHeld {
        lemma_no_pad_neutral(step(v, op).0.held);
    }
}

/// Binding is entered only from Keyboard, by the window's command, and
/// it returns to Keyboard — or to Disabled when the pad goes away, or on
/// to Gamepad when a toggle comes after the binding has timed out.
#[verifier::spinoff_prover]
pub proof fn lemma_binding_from_and_to_keyboard(v: EngineView, op: EngineOp)
    requires
        view_wf(v),
    ensures
        (!(v.mode is Binding) && step(v, op).0.mode is Binding) ==> (op is StartBinding && v.mode
            == Mode::Keyboard),
        (v.mode is Binding && !(step(v, op).0.mode is Binding)) ==> (step(v, op).0.mode
            == Mode::Keyboard || (op is Disable && step(v, op).0.mode is Disabled) || (
        (op is Key || op is Toggle) && step(v, op).0.mode == Mode::Gamepad)),
{
}

/// Along the run from `v`, every event of `k` is an autorepeat — a
/// key-down while its press is held and not stale — and no call forgets
/// the held keys. A key that cannot be mapped is never held, so for it
/// every run qualifies.
pub open spec fn only_repeats(v: EngineView, ops: Seq<EngineOp>, k: KeyId) -> bool
    decreases ops.len(),
{
    if ops.len() == 0 {
        true
    } else {
        let here = !k.spec_is_mappable() || match ops[0] {
            EngineOp::Key { key, down, now_ms } => key != k || (down && v.held.contains_key(k)
                && !crate::engine::is_stale(v.held[k], now_ms)),
            EngineOp::ResetHeld { .. } => false,
            _ => true,
        };
        here && only_repeats(step(v, ops[0]).0, ops.drop_first(), k)
    }
}

#[verifier::spinoff_prover]
proof fn lemma_repeat_keeps_press(v: EngineView, op: EngineOp, k: KeyId)
    requires
        view_wf(v),
        v.held.contains_key(k),
        op matches EngineOp::Key { key, down, now_ms } && key == k && down
            && !crate::engine::is_stale(v.held[k], now_ms),
    ensures
        same_press(v, step(v, op).0, k),
        step(v, op).1.suppress == (v.held[k].owner != Owner::Os),
{
    if let EngineOp::Key { key, down, now_ms } = op {
        lemma_autorepeat_changes_nothing(v, k, now_ms);
    }
}

proof fn lemma_run_keeps_press_with_repeats(v: EngineView, ops: Seq<EngineOp>, k: KeyId)
    requires
        view_wf(v),
        forall|i: int| 0 <= i < ops.len() ==> op_ok(#[trigger] ops[i]),
        only_repeats(v, ops, k),
        v.held.contains_key(k),
    ensures
        same_press(v, run(v, ops), k),
    decreases ops.len(),
{
    if ops.len() > 0 {
        let w = step(v, ops[0]).0;
        if leaves_key(ops[0], k) {
            lemma_step_keeps_press(v, ops[0], k);
        } else {
            lemma_repeat_keeps_press(v, ops[0], k);
        }
        lemma_step_keeps_invariant(v, ops[0]);
        let rest = ops.drop_first();
        assert forall|i: int| 0 <= i < rest.len() implies op_ok(#[trigger] rest[i]) by {
            assert(rest[i] == ops[i + 1]);
        }
        lemma_run_keeps_press_with_repeats(w, rest, k);
    }
}

/// Key ownership, with autorepeat: the key-down of a press, every
/// autorepeat of it, and its key-up get the same decision whether the OS
/// sees them, whatever calls come in between that do not forget the held
/// keys. (A key-down after a long pause of a key the OS never saw is a new
/// press, not an autorepeat: its key-up was lost.)
pub proof fn lemma_press_and_release_agree(
    v: EngineView,
    k: KeyId,
    t0: u64,
    ops: Seq<EngineOp>,
    t1: u64,
)
    requires
        view_wf(v),
        forall|i: int| 0 <= i < ops.len() ==> op_ok(#[trigger] ops[i]),
        only_repeats(on_key(v, k, true, t0).0, ops, k),
    ensures
        ({
            let (v1, pressed) = on_key(v, k, true, t0);
            let (_, released) = on_key(run(v1, ops), k, false, t1);
            released.suppress == pressed.suppress
        }),
{
    let (v1, pressed) = on_key(v, k, true, t0);
    lemma_on_key_wf(v, k, true, t0);
    lemma_run_keeps_invariant(v1, ops);
    let w = run(v1, ops);
    lemma_release_follows_record(w, k, t1);
    if k.spec_is_mappable() {
        lemma_press_records_decision(v, k, t0);
        lemma_run_keeps_press_with_repeats(v1, ops, k);
    } else {
        lemma_expire_wf(v, t0);
        lemma_unmappable_never_held(v1, ops, k);
    }
}

proof fn lemma_unmappable_never_held(v: EngineView, ops: Seq<EngineOp>, k: KeyId)
    requires
        view_wf(v),
        forall|i: int| 0 <= i < ops.len() ==> op_ok(#[trigger] ops[i]),
        !k.spec_is_mappable(),
    ensures
        !run(v, ops).held.contains_key(k),
{
    lemma_run_keeps_invariant(v, ops);
}

/// The decision of the `i`-th call of a run from `v`.
pub open spec fn decision_at(v: EngineView, ops: Seq<EngineOp>, i: int) -> Decision {
    step(run(v, ops.take(i)), ops[i]).1
}

/// Whether the OS sees the events of `k` in `v`: a held press carries the
/// decision; a key that is not held goes to the OS.
pub open spec fn hides_key(v: EngineView, k: KeyId) -> bool {
    v.held.contains_key(k) && v.held[k].owner != Owner::Os
}

proof fn lemma_run_first(v: EngineView, ops: Seq<EngineOp>, i: int)
    requires
        0 < i <= ops.len(),
    ensures
        run(v, ops.take(i)) == run(step(v, ops[0]).0, ops.drop_first().take(i - 1)),
{
    assert(ops.take(i).drop_first() =~= ops.drop_first().take(i - 1));
    assert(ops.take(i)[0] == ops[0]);
}

proof fn lemma_repeats_keep_decision(v: EngineView, ops: Seq<EngineOp>, k: KeyId, i: int)
    requires
        view_wf(v),
        forall|j: int| 0 <= j < ops.len() ==> op_ok(#[trigger] ops[j]),
        only_repeats(v, ops, k),
        k.spec_is_mappable() ==> v.held.contains_key(k),
        0 <= i < ops.len(),
        ops[i] matches EngineOp::Key { key, down, .. } && key == k && down,
    ensures
        decision_at(v, ops, i).suppress == hides_key(v, k),
    decreases i,
{
    if i == 0 {
        assert(ops.take(0) =~= Seq::<EngineOp>::empty());
        if let EngineOp::Key { key, down, now_ms } = ops[0] {
            if k.spec_is_mappable() {
                lemma_repeat_keeps_press(v, ops[0], k);
            } else {
                assert(!expire(v, now_ms).0.held.contains_key(k));
            }
        }
    } else {
        let w = step(v, ops[0]).0;
        let rest = ops.drop_first();
        lemma_step_keeps_invariant(v, ops[0]);
        if k.spec_is_mappable() {
            if leaves_key(ops[0], k) {
                lemma_step_keeps_press(v, ops[0], k);
            } else {
                lemma_repeat_keeps_press(v, ops[0], k);
            }
        } else {
            assert(!v.held.contains_key(k));
            assert(!w.held.contains_key(k));
        }
        assert forall|j: int| 0 <= j < rest.len() implies op_ok(#[trigger] rest[j]) by {
            assert(rest[j] == ops[j + 1]);
        }
        assert(rest[i - 1] == ops[i]);
        lemma_repeats_keep_decision(w, rest, k, i - 1);
        lemma_run_first(v, ops, i);
        assert(decision_at(v, ops, i) == decision_at(w, rest, i - 1));
    }
}

/// Key ownership, event by event: after the key-down of a press, every
/// autorepeat of it gets the same decision whether the OS sees it, whatever
/// calls come in between that do not forget the held keys. Every event of
/// a key that cannot be mapped goes to the OS.
pub proof fn lemma_repeats_agree_with_press(
    v: EngineView,
    k: KeyId,
    t0: u64,
    ops: Seq<EngineOp>,
    i: int,
)
    requires
        view_wf(v),
        forall|j: int| 0 <= j < ops.len() ==> op_ok(#[trigger] ops[j]),
        only_repeats(on_key(v, k, true, t0).0, ops, k),
        0 <= i < ops.len(),
        ops[i] matches EngineOp::Key { key, down, .. } && key == k && down,
    ensures
        ({
            let (v1, pressed) = on_key(v, k, true, t0);
            decision_at(v1, ops, i).suppress == pressed.suppress
        }),
        !k.spec_is_mappable() ==> !on_key(v, k, true, t0).1.suppress,
{
    let (v1, pressed) = on_key(v, k, true, t0);
    lemma_on_key_wf(v, k, true, t0);
    if k.spec_is_mappable() {
        lemma_press_records_decision(v, k, t0);
    } else {
        lemma_expire_wf(v, t0);
        assert(!v1.held.contains_key(k));
    }
    lemma_repeats_keep_decision(v1, ops, k, i);
}

/// The mode that forcing Keyboard leaves: Gamepad and a binding end in
/// Keyboard; Keyboard stays, and so does Disabled — without a pad the
/// engine must not pretend to be able to enter Gamepad.
pub open spec fn forced_mode(m: Mode) -> Mode {
    if m == Mode::Gamepad || m is Binding {
        Mode::Keyboard
    } else {
        m
    }
}

/// Forcing Keyboard, and forgetting the held keys, never enter a mode the
/// engine was not in other than Keyboard, and never leave Disabled: a
/// missing pad stays missing. Where the mode stays, the window gets no
/// notice. The pad state is handed out every time.
#[verifier::spinoff_prover]
pub proof fn lemma_force_keyboard_mode(v: EngineView, reason: ForceReason)
    requires
        view_wf(v),
    ensures
        step(v, EngineOp::ForceKeyboard { reason }).0.mode == forced_mode(v.mode),
        step(v, EngineOp::ResetHeld { reason }).0.mode == forced_mode(v.mode),
        v.mode is Disabled ==> step(v, EngineOp::ForceKeyboard { reason }).0.mode == v.mode
            && step(v, EngineOp::ResetHeld { reason }).0.mode == v.mode,
        forced_mode(v.mode) == v.mode ==> step(v, EngineOp::ForceKeyboard { reason }).1.ui is None
            && step(v, EngineOp::ResetHeld { reason }).1.ui is None,
        step(v, EngineOp::ForceKeyboard { reason }).1.pad is Some,
        step(v, EngineOp::ResetHeld { reason }).1.pad is Some,
{
}

/// A new layout is always taken, whatever the mode: after `set_mapping(m)`
/// the engine's mapping is `m`. Gamepad and a binding end in Keyboard (the
/// held keys were pressed under the old layout); Keyboard and Disabled
/// stay as they are.
#[verifier::spinoff_prover]
pub proof fn lemma_set_mapping_takes_layout(v: EngineView, m: MappingView)
    requires
        view_wf(v),
        valid_view(m),
    ensures
        step(v, EngineOp::SetMapping { mapping: m }).0.mapping == m,
        step(v, EngineOp::SetMapping { mapping: m }).0.mode == forced_mode(v.mode),
{
}

/// The window's Cancel ends a binding, always in Keyboard, and says so:
/// the notice is a cancelled binding — by the window, or by the timeout if
/// the binding was already ten seconds old. The pad state is handed out.
/// Outside a binding the call changes nothing.
#[verifier::spinoff_prover]
pub proof fn lemma_cancel_binding_ends_it(v: EngineView, now: u64)
    requires
        view_wf(v),
    ensures
        v.mode is Binding ==> ({
            let (v1, d) = step(v, EngineOp::CancelBinding { now_ms: now });
            &&& v1.mode == Mode::Keyboard
            &&& d.ui == Some(
                UiEvent::BindingCancelled {
                    reason: if now >= v.mode->started_at_ms + BINDING_TIMEOUT_MS {
                        BindingCancel::Timeout
                    } else {
                        BindingCancel::Gui
                    },
                },
            )
            &&& d.pad is Some
        }),
        !(v.mode is Binding) ==> step(v, EngineOp::CancelBinding { now_ms: now }).0 == v
            && step(v, EngineOp::CancelBinding { now_ms: now }).1.ui is None,
{
}

} // verus!
