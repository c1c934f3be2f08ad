use keypad::action::{Action, PadButton, StickDir};
use keypad::engine::{
    BindingCancel, BindingReject, CommandError, Decision, DisabledReason, Engine, ForceReason,
    Mode, ModeCause, Owner, ToggleReject, UiEvent, BINDING_TIMEOUT_MS, STALE_KEY_MS,
};
use keypad::key::KeyId;
use keypad::mapping::Mapping;
use keypad::pad_state::{PadState, AXIS_DIAGONAL, AXIS_MAX};

const W: KeyId = KeyId { scan: 0x11, extended: false };
const A: KeyId = KeyId { scan: 0x1E, extended: false };
const D: KeyId = KeyId { scan: 0x20, extended: false };
const X: KeyId = KeyId { scan: 0x2D, extended: false };
const SPACE: KeyId = KeyId { scan: 0x39, extended: false };
const ESC: KeyId = KeyId { scan: 0x01, extended: false };
const LEFT_CTRL: KeyId = KeyId { scan: 0x1D, extended: false };
const NUMPAD_8: KeyId = KeyId { scan: 0x48, extended: false };
const ARROW_UP: KeyId = KeyId { scan: 0x48, extended: true };
const ALTGR_FAKE_CTRL: KeyId = KeyId { scan: 0x21D, extended: false };
const TOGGLE: KeyId = KeyId { scan: 0x46, extended: false };
const T0: u64 = 1_000;

/// An engine with a connected pad (Keyboard mode).
fn engine_with(m: Mapping) -> Engine {
    let mut e = Engine::new(m);
    let _ = e.enable();
    assert_eq!(e.mode(), Mode::Keyboard);
    e
}

fn engine() -> Engine {
    engine_with(Mapping::default())
}

fn down(e: &mut Engine, k: KeyId) -> Decision {
    e.on_key(k, true, T0)
}

fn up(e: &mut Engine, k: KeyId) -> Decision {
    e.on_key(k, false, T0)
}

fn gamepad() -> Engine {
    let mut e = engine();
    let _ = down(&mut e, TOGGLE);
    let _ = up(&mut e, TOGGLE);
    assert_eq!(e.mode(), Mode::Gamepad);
    e
}

fn stick(p: PadState) -> (i16, i16) {
    (p.thumb_lx, p.thumb_ly)
}

#[test]
fn prepnuti_do_gamepadu_pri_drzenem_w() {
    let mut e = engine();
    assert!(!down(&mut e, W).suppress);
    let d = down(&mut e, TOGGLE);
    assert!(d.suppress, "the toggle key is swallowed");
    assert_eq!(e.mode(), Mode::Gamepad);
    assert!(d.pad.expect("state after the switch").is_neutral());
    let r = down(&mut e, W);
    assert!(!r.suppress);
    assert_eq!(r.pad, None);
    assert!(e.pad_state().is_neutral());
    let u = up(&mut e, W);
    assert!(!u.suppress, "the OS gets W-up");
    assert_eq!(u.pad, None);
    let n = down(&mut e, W);
    assert!(n.suppress);
    assert_eq!(stick(n.pad.unwrap()), (0, AXIS_MAX));
}

#[test]
fn prepnuti_do_klavesnice_pri_drzenem_w() {
    let mut e = gamepad();
    let d = down(&mut e, W);
    assert!(d.suppress);
    assert_eq!(stick(d.pad.unwrap()), (0, AXIS_MAX));
    let t = down(&mut e, TOGGLE);
    assert_eq!(e.mode(), Mode::Keyboard);
    assert!(t.pad.expect("neutral at once").is_neutral());
    assert_eq!(e.held(W).unwrap().owner, Owner::Swallow);
    let r = down(&mut e, W);
    assert!(r.suppress);
    assert_eq!(r.pad, None);
    let u = up(&mut e, W);
    assert!(u.suppress, "W-up swallowed");
    assert_eq!(u.pad, None, "the pad is neutral already");
    assert!(e.pad_state().is_neutral());
    assert_eq!(e.held(W), None);
}

#[test]
fn autorepeat_nemeni_stav_ani_neprepina_opakovane() {
    let mut e = engine();
    let prvni = down(&mut e, TOGGLE);
    assert!(matches!(
        prvni.ui,
        Some(UiEvent::ModeChanged { mode: Mode::Gamepad, cause: ModeCause::Hotkey })
    ));
    for n in 1..=100 {
        let r = e.on_key(TOGGLE, true, T0 + n * 33);
        assert!(r.suppress, "autorepeat of the toggle key is swallowed");
        assert_eq!(r.ui, None);
        assert_eq!(r.pad, None);
        assert_eq!(e.mode(), Mode::Gamepad);
    }
    assert!(e.on_key(TOGGLE, false, T0 + 3_400).suppress);
    assert_eq!(e.mode(), Mode::Gamepad);
    let d = down(&mut e, D);
    let stav = d.pad.unwrap();
    for n in 1..=100 {
        let r = e.on_key(D, true, T0 + n * 33);
        assert!(r.suppress);
        assert_eq!(r.pad, None);
        assert_eq!(r.ui, None);
    }
    assert_eq!(e.pad_state(), stav);
    assert_eq!(e.held(D).unwrap().seq, 2, "autorepeat does not raise seq");
}

#[test]
fn key_up_bez_key_down_je_propusten() {
    for mut e in [engine(), gamepad()] {
        let d = up(&mut e, W);
        assert_eq!(d, Decision::none(), "in mode {:?}", e.mode());
        let d = up(&mut e, TOGGLE);
        assert_eq!(d, Decision::none());
    }
}

#[test]
fn socd_a_d_uvolnit_d_zpet_a() {
    let mut e = gamepad();
    assert_eq!(stick(down(&mut e, A).pad.unwrap()), (-AXIS_MAX, 0));
    assert_eq!(stick(down(&mut e, D).pad.unwrap()), (AXIS_MAX, 0), "D wins");
    assert_eq!(stick(up(&mut e, D).pad.unwrap()), (-AXIS_MAX, 0), "back to A");
    assert_eq!(stick(up(&mut e, A).pad.unwrap()), (0, 0));
}

#[test]
fn diagonala_w_d_a_samotne_w() {
    let mut e = gamepad();
    assert_eq!(stick(down(&mut e, W).pad.unwrap()), (0, 32_767));
    let p = down(&mut e, D).pad.unwrap();
    assert_eq!(stick(p), (23_170, 23_170));
    assert_eq!(AXIS_DIAGONAL, 23_170);
    assert_eq!(stick(up(&mut e, D).pad.unwrap()), (0, 32_767));
}

#[test]
fn dve_klavesy_na_stejne_tlacitko() {
    let mut m = Mapping::default();
    m.bind(X, Action::Button(PadButton::A)).unwrap();
    let mut e = engine_with(m);
    let _ = e.toggle(T0);
    let d = down(&mut e, SPACE);
    assert!(d.pad.unwrap().is_pressed(PadButton::A));
    let d = down(&mut e, X);
    assert!(d.suppress);
    assert_eq!(d.pad, None);
    let d = up(&mut e, SPACE);
    assert!(d.suppress);
    assert_eq!(d.pad, None);
    assert!(e.pad_state().is_pressed(PadButton::A));
    let d = up(&mut e, X);
    assert!(!d.pad.unwrap().is_pressed(PadButton::A));
}

#[test]
fn binding_esc_rusi() {
    let mut e = engine();
    let before = e.mapping().clone();
    let _ = e.start_binding(Action::Button(PadButton::A), T0).unwrap();
    let d = down(&mut e, ESC);
    assert!(d.suppress, "Esc during binding does not reach the OS");
    assert_eq!(d.ui, Some(UiEvent::BindingCancelled { reason: BindingCancel::Escape }));
    assert_eq!(e.mode(), Mode::Keyboard);
    assert_eq!(e.mapping(), &before);
    assert!(up(&mut e, ESC).suppress);
}

#[test]
fn binding_timeout_rusi() {
    let mut e = engine();
    let _ = e.start_binding(Action::LeftTrigger, T0).unwrap();
    assert_eq!(e.tick(T0 + BINDING_TIMEOUT_MS - 1), Decision::none());
    assert!(matches!(e.mode(), Mode::Binding { .. }));
    let d = e.tick(T0 + BINDING_TIMEOUT_MS);
    assert_eq!(d.ui, Some(UiEvent::BindingCancelled { reason: BindingCancel::Timeout }));
    assert_eq!(e.mode(), Mode::Keyboard);
}

#[test]
fn binding_timeout_rusi_i_bez_ticku() {
    let mut e = engine();
    let before = e.mapping().clone();
    let _ = e.start_binding(Action::LeftTrigger, T0).unwrap();
    let d = e.on_key(X, true, T0 + BINDING_TIMEOUT_MS + 5);
    assert!(!d.suppress, "a key after the timeout goes to the OS");
    assert_eq!(d.ui, Some(UiEvent::BindingCancelled { reason: BindingCancel::Timeout }));
    assert_eq!(e.mapping(), &before);
    assert!(!e.on_key(X, false, T0 + BINDING_TIMEOUT_MS + 9).suppress);
}

#[test]
fn binding_zkratku_nelze_priradit() {
    let mut e = engine();
    let before = e.mapping().clone();
    let _ = e.start_binding(Action::Button(PadButton::Y), T0).unwrap();
    let d = down(&mut e, TOGGLE);
    assert!(d.suppress);
    assert_eq!(
        d.ui,
        Some(UiEvent::BindingRejected { key: TOGGLE, reason: BindingReject::ToggleKey })
    );
    assert!(matches!(e.mode(), Mode::Binding { .. }), "binding waits on");
    assert_eq!(e.mapping(), &before);
    let _ = up(&mut e, TOGGLE);
    let d = down(&mut e, X);
    assert_eq!(
        d.ui,
        Some(UiEvent::BindingSaved {
            key: X,
            action: Action::Button(PadButton::Y),
            moved_from: None
        })
    );
    assert_eq!(e.mapping().action_for(X), Some(Action::Button(PadButton::Y)));
}

#[test]
fn novy_engine_nepusti_na_gamepad_bez_padu() {
    let mut e = Engine::new(Mapping::default());
    assert_eq!(e.mode(), Mode::Disabled { reason: DisabledReason::PadNotConnected });
    let d = down(&mut e, TOGGLE);
    assert!(d.suppress);
    assert_eq!(
        d.ui,
        Some(UiEvent::ToggleRejected {
            reason: ToggleReject::Disabled(DisabledReason::PadNotConnected)
        })
    );
    assert!(!down(&mut e, W).suppress, "keys go to the OS");
}

#[test]
fn binding_ulozi_klavesu_a_spolkne_ji() {
    let mut e = engine();
    let d = e.start_binding(Action::RightTrigger, T0).unwrap();
    assert!(matches!(
        d.ui,
        Some(UiEvent::ModeChanged { mode: Mode::Binding { .. }, cause: ModeCause::Gui })
    ));
    let d = down(&mut e, W);
    assert!(d.suppress, "the key being bound does not reach the OS");
    assert_eq!(
        d.ui,
        Some(UiEvent::BindingSaved {
            key: W,
            action: Action::RightTrigger,
            moved_from: Some(Action::LeftStick(StickDir::Up))
        })
    );
    assert_eq!(e.mode(), Mode::Keyboard);
    assert!(down(&mut e, W).suppress);
    assert!(up(&mut e, W).suppress);
    assert!(!down(&mut e, W).suppress);
}

#[test]
fn nemapovatelne_klavesy_jdou_do_os_i_pri_prirazovani() {
    let mut e = engine();
    let before = e.mapping().clone();
    let _ = e.start_binding(Action::LeftTrigger, T0).unwrap();
    for k in [ALTGR_FAKE_CTRL, KeyId::new(0), KeyId::new(0x80)] {
        let d = down(&mut e, k);
        assert!(!d.suppress, "{k:?} goes to the OS");
        assert_eq!(
            d.ui,
            Some(UiEvent::BindingRejected { key: k, reason: BindingReject::Unmappable })
        );
        assert!(!up(&mut e, k).suppress);
        assert!(matches!(e.mode(), Mode::Binding { .. }));
    }
    assert_eq!(e.held_len(), 0, "unmappable keys are not tracked");
    assert_eq!(e.mapping(), &before);
}

#[test]
fn klavesy_bez_scan_kodu_si_nesdileji_zaznam() {
    let mut e = engine();
    let media = KeyId::new(0);
    assert!(!down(&mut e, media).suppress);
    let _ = e.start_binding(Action::LeftTrigger, T0).unwrap();
    assert!(!down(&mut e, media).suppress);
    assert!(!up(&mut e, media).suppress);
    assert!(!down(&mut e, media).suppress);
    assert!(!up(&mut e, media).suppress);
    assert_eq!(e.held_len(), 0);
}

#[test]
fn binding_jen_z_klavesnice() {
    let mut e = gamepad();
    assert_eq!(
        e.start_binding(Action::LeftTrigger, T0),
        Err(CommandError::NotInKeyboardMode(Mode::Gamepad))
    );
    let mut e = engine();
    let _ = e.disable(DisabledReason::ViGEmMissing);
    assert!(e.start_binding(Action::LeftTrigger, T0).is_err());
}

#[test]
fn prikazy_berou_v_potaz_propadle_prirazovani() {
    let late = T0 + BINDING_TIMEOUT_MS + 1;
    let mut e = engine();
    let _ = e.start_binding(Action::LeftTrigger, T0).unwrap();
    let d = e.start_binding(Action::RightTrigger, late).unwrap();
    assert_eq!(e.mode(), Mode::Binding { action: Action::RightTrigger, started_at_ms: late });
    assert!(matches!(d.ui, Some(UiEvent::ModeChanged { .. })));
    let mut e = engine();
    let _ = e.start_binding(Action::LeftTrigger, T0).unwrap();
    let _ = e.toggle(late);
    assert_eq!(e.mode(), Mode::Gamepad);
    let mut e = engine();
    let _ = e.start_binding(Action::LeftTrigger, T0).unwrap();
    assert_eq!(
        e.cancel_binding(late).ui,
        Some(UiEvent::BindingCancelled { reason: BindingCancel::Timeout })
    );
}

#[test]
fn binding_autorepeat_drzene_klavesy_nic_neprirazuje() {
    let mut e = engine();
    assert!(!down(&mut e, W).suppress);
    let before = e.mapping().clone();
    let _ = e.start_binding(Action::LeftTrigger, T0).unwrap();
    let r = down(&mut e, W);
    assert!(!r.suppress);
    assert_eq!(r.ui, None);
    assert!(matches!(e.mode(), Mode::Binding { .. }));
    assert_eq!(e.mapping(), &before);
    assert!(!up(&mut e, W).suppress);
}

#[test]
fn nenamapovane_klavesy_v_gamepadu_jdou_do_os() {
    let mut e = gamepad();
    for k in [X, NUMPAD_8, ALTGR_FAKE_CTRL, LEFT_CTRL] {
        let d = down(&mut e, k);
        assert!(!d.suppress, "{k:?}");
        assert_eq!(d.pad, None);
        assert!(!up(&mut e, k).suppress, "{k:?}");
    }
}

#[test]
fn altgr_nespousti_akci_na_lctrl() {
    let mut m = Mapping::default();
    m.bind(LEFT_CTRL, Action::Button(PadButton::B)).unwrap();
    let mut e = engine_with(m);
    let _ = e.toggle(T0);
    let d = down(&mut e, ALTGR_FAKE_CTRL);
    assert!(!d.suppress);
    assert!(e.pad_state().is_neutral());
}

#[test]
fn klavesnice_nic_nepotlacuje_krome_zkratky() {
    let mut e = engine();
    for k in [W, SPACE, ARROW_UP, ESC] {
        assert!(!down(&mut e, k).suppress);
        assert!(!up(&mut e, k).suppress);
    }
    assert!(e.pad_state().is_neutral());
}

#[test]
fn toggle_z_okna_funguje_jako_zkratka() {
    let mut e = engine();
    let d = e.toggle(T0);
    assert!(!d.suppress);
    assert_eq!(d.ui, Some(UiEvent::ModeChanged { mode: Mode::Gamepad, cause: ModeCause::Gui }));
    let _ = down(&mut e, W);
    let d = e.toggle(T0);
    assert_eq!(e.mode(), Mode::Keyboard);
    assert!(d.pad.unwrap().is_neutral());
    assert!(up(&mut e, W).suppress);
}

#[test]
fn disabled_nepusti_na_gamepad_a_propousti_klavesy() {
    let mut e = engine();
    let _ = e.disable(DisabledReason::ViGEmMissing);
    let d = down(&mut e, TOGGLE);
    assert!(d.suppress, "the toggle key is always swallowed");
    assert_eq!(
        d.ui,
        Some(UiEvent::ToggleRejected { reason: ToggleReject::Disabled(DisabledReason::ViGEmMissing) })
    );
    assert!(!down(&mut e, W).suppress);
    assert_eq!(
        e.toggle(T0).ui,
        Some(UiEvent::ToggleRejected { reason: ToggleReject::Disabled(DisabledReason::ViGEmMissing) })
    );
    let d = e.enable();
    assert_eq!(e.mode(), Mode::Keyboard, "Keyboard after enabling, not Gamepad");
    assert!(matches!(d.ui, Some(UiEvent::ModeChanged { cause: ModeCause::PadStatus, .. })));
}

#[test]
fn chyba_padu_v_gamepadu_vynuti_klavesnici() {
    let mut e = gamepad();
    let _ = down(&mut e, W);
    let d = e.disable(DisabledReason::PadError);
    assert!(d.pad.unwrap().is_neutral());
    assert_eq!(e.mode(), Mode::Disabled { reason: DisabledReason::PadError });
    assert!(up(&mut e, W).suppress, "W-up swallowed");
}

#[test]
fn vynucena_klavesnice() {
    let mut e = gamepad();
    let _ = down(&mut e, A);
    let d = e.force_keyboard(ForceReason::Watchdog);
    assert_eq!(e.mode(), Mode::Keyboard);
    assert!(d.pad.unwrap().is_neutral());
    assert_eq!(
        d.ui,
        Some(UiEvent::ModeChanged {
            mode: Mode::Keyboard,
            cause: ModeCause::Forced(ForceReason::Watchdog)
        })
    );
    assert!(up(&mut e, A).suppress);
    let d = e.force_keyboard(ForceReason::Shutdown);
    assert_eq!(d.ui, None);
    assert!(d.pad.unwrap().is_neutral());
}

#[test]
fn zamceni_relace_zapomene_drzene_klavesy() {
    let mut e = gamepad();
    let _ = down(&mut e, W);
    let _ = down(&mut e, X);
    let d = e.reset_held(ForceReason::SessionLock);
    assert!(d.pad.unwrap().is_neutral());
    assert_eq!(e.mode(), Mode::Keyboard);
    assert_eq!(e.held_len(), 0);
    assert!(!up(&mut e, W).suppress);
    assert!(!up(&mut e, X).suppress);
}

#[test]
fn panika_v_hooku_nenecha_klavesu_viset_v_os() {
    let mut e = gamepad();
    assert!(down(&mut e, W).suppress);
    let _ = e.reset_held(ForceReason::HookPanic);
    assert!(!down(&mut e, W).suppress, "autorepeat to the OS");
    assert!(!up(&mut e, W).suppress, "key-up to the OS");
}

#[test]
fn ztraceny_key_up_klavesy_padu() {
    let mut e = gamepad();
    let _ = e.on_key(W, true, T0);
    let d = e.on_key(W, true, T0 + 60_000);
    assert!(d.suppress);
    assert_eq!(e.held(W).unwrap().seq, 3, "a new press");
    assert_eq!(stick(e.pad_state()), (0, AXIS_MAX));
    let d = e.on_key(W, false, T0 + 60_100);
    assert!(d.pad.unwrap().is_neutral(), "and its key-up releases the stick");
}

#[test]
fn ztraceny_key_up_nespolkne_dalsi_stisk_v_klavesnici() {
    let mut e = gamepad();
    let _ = e.on_key(W, true, T0);
    let _ = e.toggle(T0 + 10);
    let d = e.on_key(W, true, T0 + 60_000);
    assert!(!d.suppress, "the keyboard must not get lost");
    assert!(!e.on_key(W, false, T0 + 60_050).suppress);
}

#[test]
fn ztraceny_key_up_zkratky_neblokuje_dalsi_prepnuti() {
    let mut e = engine();
    let _ = e.on_key(TOGGLE, true, T0);
    assert_eq!(e.mode(), Mode::Gamepad);
    let d = e.on_key(TOGGLE, true, T0 + 5_000);
    assert_eq!(e.mode(), Mode::Keyboard, "the second press switched");
    assert!(d.suppress);
}

#[test]
fn os_klavesa_se_po_pauze_nepreklasifikuje() {
    let mut e = engine();
    let _ = e.on_key(W, true, T0);
    let _ = e.toggle(T0 + 10);
    let d = e.on_key(W, true, T0 + 60_000);
    assert!(!d.suppress);
    assert!(!e.on_key(W, false, T0 + 60_010).suppress);
}

#[test]
fn zmena_mapovani_v_gamepadu_vynuti_klavesnici() {
    let mut e = gamepad();
    let _ = down(&mut e, W);
    let mut m = Mapping::default();
    m.unbind(W).unwrap();
    let d = e.set_mapping(m);
    assert_eq!(e.mode(), Mode::Keyboard);
    assert!(d.pad.unwrap().is_neutral());
    assert!(up(&mut e, W).suppress);
    assert_eq!(e.mapping().action_for(W), None);
}

#[test]
fn prepnuti_nezasekne_os_klavesy_ani_pad() {
    let mut e = engine();
    assert!(!down(&mut e, SPACE).suppress);
    let _ = e.toggle(T0);
    let _ = e.toggle(T0);
    let _ = e.toggle(T0);
    assert!(!up(&mut e, SPACE).suppress);
    assert!(e.pad_state().is_neutral());
    assert_eq!(e.held_len(), 0);
}

#[test]
fn sipka_a_numpad_se_nepletou() {
    let mut e = gamepad();
    assert!(!down(&mut e, NUMPAD_8).suppress, "numpad 8 is not mapped");
    let d = down(&mut e, ARROW_UP);
    assert!(d.suppress);
    assert_eq!(d.pad.unwrap().thumb_ry, AXIS_MAX);
}

// ── Laws on concrete values ────────────────────────────────────────

#[test]
fn stale_key_boundary() {
    let mut e = gamepad();
    let _ = e.on_key(W, true, T0);
    let r = e.on_key(W, true, T0 + STALE_KEY_MS - 1);
    assert_eq!(e.held(W).unwrap().seq, 2, "still autorepeat");
    assert_eq!(r.pad, None);
    let _ = e.on_key(W, true, T0 + 2 * STALE_KEY_MS);
    assert_eq!(e.held(W).unwrap().seq, 3, "a pause counts as a new press");
}

#[test]
fn time_going_back_breaks_nothing() {
    let mut e = engine();
    let _ = e.start_binding(Action::LeftTrigger, 50_000);
    assert_eq!(e.tick(0), Decision::none(), "no underflow, no timeout");
    assert!(matches!(e.mode(), Mode::Binding { .. }));
}

#[test]
fn every_mode_change_hands_out_the_pad() {
    let mut e = gamepad();
    let _ = down(&mut e, A);
    let d = e.set_mapping(Mapping::default());
    assert_eq!(d.pad, Some(e.pad_state()));
    assert!(matches!(d.ui, Some(UiEvent::ModeChanged { mode: Mode::Keyboard, .. })));
    let d = e.disable(DisabledReason::PadError);
    assert_eq!(d.pad, Some(PadState::neutral()));
    assert_eq!(e.disable(DisabledReason::PadError), Decision::none(), "no change, no notice");
}

/// A small deterministic generator of operations.
struct Lcg(u64);

impl Lcg {
    fn next(&mut self) -> u64 {
        self.0 = self.0.wrapping_mul(6364136223846793005).wrapping_add(1442695040888963407);
        self.0 >> 33
    }
}

#[test]
fn release_all_after_random_run_is_neutral() {
    let keys = [W, A, D, SPACE, ARROW_UP, TOGGLE, ESC, X, NUMPAD_8, ALTGR_FAKE_CTRL, KeyId::new(0)];
    for seed in 0..40u64 {
        let mut g = Lcg(seed);
        let mut e = engine();
        let mut now = T0;
        let mut physical: Vec<(KeyId, bool, u64)> = Vec::new();
        for _ in 0..300 {
            let k = keys[(g.next() % keys.len() as u64) as usize];
            match g.next() % 12 {
                0..=4 => {
                    let d = e.on_key(k, true, now);
                    match physical.iter().position(|p| p.0 == k) {
                        Some(i) => {
                            let (_, suppressed, last) = physical[i];
                            if suppressed && now - last >= STALE_KEY_MS {
                                physical[i].1 = d.suppress;
                            } else {
                                assert_eq!(d.suppress, suppressed, "autorepeat like its press");
                            }
                            physical[i].2 = now;
                        }
                        None => physical.push((k, d.suppress, now)),
                    }
                }
                5..=7 => {
                    let d = e.on_key(k, false, now);
                    if let Some(i) = physical.iter().position(|p| p.0 == k) {
                        assert_eq!(d.suppress, physical[i].1, "key-up like its key-down");
                        physical.remove(i);
                    } else {
                        assert!(!d.suppress, "key-up without key-down passes");
                    }
                }
                8 => {
                    let _ = e.toggle(now);
                }
                9 => {
                    let a = Action::all()[(g.next() % 24) as usize];
                    let _ = e.start_binding(a, now);
                }
                10 => {
                    now += g.next() % 12_000;
                    let _ = e.tick(now);
                }
                _ => {
                    let _ = e.disable(DisabledReason::PadError);
                    let _ = e.enable();
                }
            }
            if e.mode() != Mode::Gamepad {
                assert!(e.pad_state().is_neutral());
            }
        }
        for (k, _, _) in physical.drain(..) {
            let _ = e.on_key(k, false, now);
        }
        assert_eq!(e.held_len(), 0);
        assert!(e.pad_state().is_neutral());
    }
}

#[test]
fn command_error_text() {
    assert_eq!(
        CommandError::NotInKeyboardMode(Mode::Gamepad).to_text(),
        "přiřazovat klávesy jde jen v režimu Klávesnice (teď Gamepad)"
    );
    let m = Mode::Binding { action: Action::Button(PadButton::Lb), started_at_ms: 5 };
    assert_eq!(m.to_text(), "Binding { action: Button(Lb), started_at_ms: 5 }");
    assert_eq!(format!("{m:?}"), m.to_text());
    let m = Mode::Disabled { reason: DisabledReason::PadError };
    assert_eq!(format!("{m:?}"), m.to_text());
}

#[test]
fn autorepeat_dostane_rozhodnuti_stisku() {
    // A pad key: the press, every autorepeat and the release are hidden,
    // a toggle in between notwithstanding.
    let mut e = gamepad();
    assert!(e.on_key(W, true, T0).suppress);
    for t in 1..5u64 {
        assert!(e.on_key(W, true, T0 + 30 * t).suppress);
    }
    let _ = e.toggle(T0 + 200);
    assert!(e.on_key(W, true, T0 + 230).suppress);
    assert!(e.on_key(W, false, T0 + 260).suppress);
    // A key that cannot be mapped: every event goes to the OS.
    for t in 0..5u64 {
        assert!(!e.on_key(ALTGR_FAKE_CTRL, true, T0 + 300 + 30 * t).suppress);
    }
    assert!(!e.on_key(ALTGR_FAKE_CTRL, false, T0 + 500).suppress);
    // A key-up without a key-down goes to the OS.
    assert!(!e.on_key(X, false, T0 + 600).suppress);
}
