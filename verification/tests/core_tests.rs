use keypad::action::{Action, PadButton, StickDir};
use keypad::key::{KeyId, KEY_TABLE_SIZE};
use keypad::mapping::{Mapping, MappingError};
use keypad::pad_state::{compute_pad_state, PadState, AXIS_DIAGONAL, AXIS_MAX};

const W: KeyId = KeyId { scan: 0x11, extended: false };
const A: KeyId = KeyId { scan: 0x1E, extended: false };
const X: KeyId = KeyId { scan: 0x2D, extended: false };
const ESC: KeyId = KeyId { scan: 0x01, extended: false };
const LEFT_CTRL: KeyId = KeyId { scan: 0x1D, extended: false };
const SCROLL_LOCK: KeyId = KeyId { scan: 0x46, extended: false };
const NUMPAD_8: KeyId = KeyId { scan: 0x48, extended: false };
const ARROW_UP: KeyId = KeyId { scan: 0x48, extended: true };
const ALTGR_FAKE_CTRL: KeyId = KeyId { scan: 0x21D, extended: false };

const UP: Action = Action::LeftStick(StickDir::Up);
const A_BTN: Action = Action::Button(PadButton::A);

fn ls(d: StickDir) -> Action {
    Action::LeftStick(d)
}

// ── Actions ────────────────────────────────────────────────────────

#[test]
fn masky_tlacitek_jsou_ruzne_bity() {
    let mut seen = 0u16;
    for b in PadButton::all() {
        let m = b.mask();
        assert_eq!(m.count_ones(), 1, "{b:?}");
        assert_eq!(seen & m, 0, "{b:?} shares a bit");
        seen |= m;
    }
}

#[test]
fn vsech_akci_je_24_a_kazda_jednou() {
    let v: Vec<Action> = Action::all();
    assert_eq!(v.len(), 24);
    let mut s = v.clone();
    s.sort();
    s.dedup();
    assert_eq!(s.len(), v.len());
}

#[test]
fn button_masks_have_xinput_values() {
    assert_eq!(PadButton::DpadUp.mask(), 0x0001);
    assert_eq!(PadButton::Start.mask(), 0x0010);
    assert_eq!(PadButton::A.mask(), 0x1000);
    assert_eq!(PadButton::Y.mask(), 0x8000);
    assert_eq!(StickDir::all().len(), 4);
}

// ── Keys ───────────────────────────────────────────────────────────

#[test]
fn mapovatelne_jsou_jen_make_kody() {
    assert!(W.is_mappable());
    assert!(ARROW_UP.is_mappable());
    assert!(KeyId::new(0x7F).is_mappable());
    assert!(!KeyId::new(0).is_mappable(), "media keys without a scan code");
    assert!(!KeyId::new(0x80).is_mappable());
    assert!(!ALTGR_FAKE_CTRL.is_mappable(), "fake Ctrl of AltGr");
}

#[test]
fn index_je_bijekce_na_mapovatelnych() {
    let mut seen = [false; KEY_TABLE_SIZE];
    for scan in 0..=0x300u16 {
        for extended in [false, true] {
            let k = KeyId { scan, extended };
            match k.index() {
                Some(i) => {
                    assert!(k.is_mappable());
                    assert!(i < KEY_TABLE_SIZE);
                    assert!(!seen[i], "{k:?} collides");
                    seen[i] = true;
                    assert_eq!(KeyId::from_index(i), k);
                }
                None => assert!(!k.is_mappable()),
            }
        }
    }
    assert_eq!(seen.iter().filter(|&&s| s).count(), 254);
}

#[test]
fn sipka_a_numpad_jsou_ruzne_klavesy() {
    assert_eq!(ARROW_UP.scan, NUMPAD_8.scan);
    assert_ne!(ARROW_UP, NUMPAD_8);
}

#[test]
fn altgr_neni_levy_ctrl() {
    assert_ne!(ALTGR_FAKE_CTRL, LEFT_CTRL);
}

#[test]
fn zobrazeni() {
    assert_eq!(W.to_text(), "0x11");
    assert_eq!(ARROW_UP.to_text(), "E0 0x48");
}

#[test]
fn key_text_pads_and_widens() {
    assert_eq!(KeyId::new(0x05).to_text(), "0x05");
    assert_eq!(ALTGR_FAKE_CTRL.to_text(), "0x21D");
    assert_eq!(KeyId::ext(0x4D).to_text(), "E0 0x4D");
}

#[test]
fn named_keys() {
    assert_eq!(KeyId::esc(), ESC);
    assert_eq!(KeyId::scroll_lock(), SCROLL_LOCK);
    assert_eq!(KeyId::ext(0x48), ARROW_UP);
}

// ── Pad state ──────────────────────────────────────────────────────

#[test]
fn nic_drzeno_je_neutral() {
    assert!(compute_pad_state(&[]).is_neutral());
    assert_eq!(compute_pad_state(&[]), PadState::neutral());
}

#[test]
fn w_samotne_je_plne_nahoru() {
    let s = compute_pad_state(&[(ls(StickDir::Up), 1)]);
    assert_eq!((s.thumb_lx, s.thumb_ly), (0, 32_767));
}

#[test]
fn diagonala_w_d() {
    let s = compute_pad_state(&[(ls(StickDir::Up), 1), (ls(StickDir::Right), 2)]);
    assert_eq!((s.thumb_lx, s.thumb_ly), (23_170, 23_170));
}

#[test]
fn diagonala_ma_delku_jedna() {
    let d = f64::from(AXIS_DIAGONAL);
    let len = (d * d * 2.0).sqrt();
    assert!((len - f64::from(AXIS_MAX)).abs() < 1.0, "length {len}");
}

#[test]
fn zaporne_smery_nikdy_i16_min() {
    let s = compute_pad_state(&[(ls(StickDir::Down), 1), (ls(StickDir::Left), 2)]);
    assert_eq!((s.thumb_lx, s.thumb_ly), (-23_170, -23_170));
    let s = compute_pad_state(&[(ls(StickDir::Down), 1)]);
    assert_eq!(s.thumb_ly, -32_767);
    let s = compute_pad_state(&[(Action::RightStick(StickDir::Left), 1)]);
    assert_eq!(s.thumb_rx, -32_767);
}

#[test]
fn socd_vyhrava_posledni() {
    let s = compute_pad_state(&[(ls(StickDir::Left), 1), (ls(StickDir::Right), 2)]);
    assert_eq!(s.thumb_lx, 32_767);
    let s = compute_pad_state(&[(ls(StickDir::Right), 1), (ls(StickDir::Left), 2)]);
    assert_eq!(s.thumb_lx, -32_767);
    let s = compute_pad_state(&[(ls(StickDir::Right), 2), (ls(StickDir::Left), 1)]);
    assert_eq!(s.thumb_lx, 32_767);
}

#[test]
fn socd_na_ose_y_a_diagonala_zustava() {
    let s = compute_pad_state(&[
        (ls(StickDir::Up), 1),
        (ls(StickDir::Down), 2),
        (ls(StickDir::Right), 3),
    ]);
    assert_eq!((s.thumb_lx, s.thumb_ly), (23_170, -23_170));
}

#[test]
fn smer_drzeny_dvema_klavesami_bere_novejsi_stisk() {
    let s = compute_pad_state(&[
        (ls(StickDir::Left), 1),
        (ls(StickDir::Right), 2),
        (ls(StickDir::Left), 3),
    ]);
    assert_eq!(s.thumb_lx, -32_767);
}

#[test]
fn shodne_seq_je_neutral() {
    let s = compute_pad_state(&[(ls(StickDir::Left), 5), (ls(StickDir::Right), 5)]);
    assert_eq!(s.thumb_lx, 0);
}

#[test]
fn tlacitka_a_triggery() {
    let s = compute_pad_state(&[
        (Action::Button(PadButton::A), 1),
        (Action::Button(PadButton::DpadLeft), 2),
        (Action::LeftTrigger, 3),
    ]);
    assert!(s.is_pressed(PadButton::A));
    assert!(s.is_pressed(PadButton::DpadLeft));
    assert!(!s.is_pressed(PadButton::B));
    assert_eq!(s.buttons, 0x1000 | 0x0004);
    assert_eq!((s.left_trigger, s.right_trigger), (255, 0));
}

#[test]
fn prava_packa_nezavisi_na_leve() {
    let s = compute_pad_state(&[(ls(StickDir::Up), 1), (Action::RightStick(StickDir::Left), 2)]);
    assert_eq!((s.thumb_lx, s.thumb_ly), (0, 32_767));
    assert_eq!((s.thumb_rx, s.thumb_ry), (-32_767, 0));
}

#[test]
fn pad_state_does_not_depend_on_order() {
    let items = [
        (ls(StickDir::Up), 4),
        (Action::RightTrigger, 1),
        (ls(StickDir::Down), 7),
        (Action::Button(PadButton::Back), 2),
        (Action::RightStick(StickDir::Right), 3),
        (ls(StickDir::Left), 9),
    ];
    let mut rev = items;
    rev.reverse();
    let a = compute_pad_state(&items);
    assert_eq!(a, compute_pad_state(&rev));
    assert_eq!((a.thumb_lx, a.thumb_ly), (-23_170, -23_170));
    for axis in [a.thumb_lx, a.thumb_ly, a.thumb_rx, a.thumb_ry] {
        assert!([0, 23_170, -23_170, 32_767, -32_767].contains(&axis));
    }
}

// ── Mapping ────────────────────────────────────────────────────────

#[test]
fn vychozi_mapovani_je_platne() {
    let d = Mapping::default();
    let znovu = Mapping::new(d.toggle_key(), &d.bindings()).expect("the default is valid");
    assert_eq!(znovu, d);
    assert_eq!(d.len(), 24);
    assert!(!d.is_empty());
    assert_eq!(d.toggle_key(), SCROLL_LOCK);
    assert_eq!(d.action_for(W), Some(UP));
    assert_eq!(d.action_for(NUMPAD_8), None);
    assert_eq!(d.action_for(ARROW_UP), Some(Action::RightStick(StickDir::Up)));
    for a in Action::all() {
        assert_eq!(d.keys_for(a).len(), 1, "{a:?}");
    }
}

#[test]
fn debug_ukazuje_jen_vazby() {
    let m = Mapping::new(SCROLL_LOCK, &[(W, UP)]).unwrap();
    let s = m.debug_text();
    assert!(s.contains("LeftStick(Up)"), "{s}");
    assert!(!s.contains("None"), "{s}");
}

#[test]
fn ladici_vypis_mapovani_je_presny() {
    let m = Mapping::new(SCROLL_LOCK, &[(ARROW_UP, A_BTN), (W, UP)]).unwrap();
    assert_eq!(
        m.debug_text(),
        "Mapping { toggle: KeyId { scan: 70, extended: false }, bindings: [\
(KeyId { scan: 17, extended: false }, LeftStick(Up)), \
(KeyId { scan: 72, extended: true }, Button(A))] }"
    );
    assert_eq!(W.debug_text(), format!("{W:?}"));
    assert_eq!(ARROW_UP.debug_text(), format!("{ARROW_UP:?}"));
}

#[test]
fn duplicitni_klavesa_pro_dve_akce_se_zamitne() {
    let e = Mapping::new(SCROLL_LOCK, &[(W, UP), (W, A_BTN)]).unwrap_err();
    assert_eq!(e, vec![MappingError::DuplicateKey { key: W, first: UP, second: A_BTN }]);
}

#[test]
fn stejna_vazba_dvakrat_neni_chyba() {
    let m = Mapping::new(SCROLL_LOCK, &[(W, UP), (W, UP)]).unwrap();
    assert_eq!(m.len(), 1);
}

#[test]
fn zkratka_prepnuti_nesmi_byt_namapovana() {
    let e = Mapping::new(SCROLL_LOCK, &[(W, UP), (SCROLL_LOCK, A_BTN)]).unwrap_err();
    assert_eq!(e, vec![MappingError::ToggleKeyMapped { key: SCROLL_LOCK, action: A_BTN }]);
}

#[test]
fn prazdne_mapovani_se_zamitne() {
    assert_eq!(Mapping::new(SCROLL_LOCK, &[]).unwrap_err(), vec![MappingError::Empty]);
}

#[test]
fn prazdne_se_hlasi_i_vedle_chyby_zkratky() {
    let e = Mapping::new(ESC, &[]).unwrap_err();
    assert_eq!(e, vec![MappingError::ToggleIsEscape, MappingError::Empty]);
}

#[test]
fn prazdne_se_nehlasi_kdyz_vazba_vypadla_jinou_chybou() {
    let e = Mapping::new(SCROLL_LOCK, &[(ALTGR_FAKE_CTRL, UP)]).unwrap_err();
    assert_eq!(e, vec![MappingError::Unmappable { key: ALTGR_FAKE_CTRL, action: Some(UP) }]);
}

#[test]
fn vraci_vsechny_chyby_najednou() {
    let e = Mapping::new(ESC, &[(ALTGR_FAKE_CTRL, UP), (W, UP), (W, A_BTN)]).unwrap_err();
    assert_eq!(e.len(), 3, "{e:?}");
    assert!(e.contains(&MappingError::ToggleIsEscape));
    assert!(e.contains(&MappingError::Unmappable { key: ALTGR_FAKE_CTRL, action: Some(UP) }));
}

#[test]
fn nemapovatelna_zkratka_se_zamitne() {
    let e = Mapping::new(KeyId::new(0), &[(W, UP)]).unwrap_err();
    assert_eq!(e, vec![MappingError::Unmappable { key: KeyId::new(0), action: None }]);
}

#[test]
fn bind_presune_klavesu_z_jine_akce() {
    let mut m = Mapping::default();
    assert_eq!(m.bind(W, A_BTN), Ok(Some(UP)));
    assert_eq!(m.action_for(W), Some(A_BTN));
    assert_eq!(m.keys_for(A_BTN).len(), 2);
    assert_eq!(m.bind(W, A_BTN), Ok(None));
}

#[test]
fn bind_odmitne_zkratku_a_nemapovatelne() {
    let mut m = Mapping::default();
    let pred = m.clone();
    assert!(matches!(m.bind(SCROLL_LOCK, UP), Err(MappingError::ToggleKeyMapped { .. })));
    assert!(matches!(m.bind(ALTGR_FAKE_CTRL, UP), Err(MappingError::Unmappable { .. })));
    assert!(matches!(m.bind(KeyId::new(0), UP), Err(MappingError::Unmappable { .. })));
    assert_eq!(m, pred, "a refusal changes nothing");
}

#[test]
fn posledni_vazbu_nelze_odebrat() {
    let mut m = Mapping::new(SCROLL_LOCK, &[(W, UP), (A, A_BTN)]).unwrap();
    assert_eq!(m.unbind(A), Ok(A_BTN));
    assert_eq!(m.unbind(A), Err(MappingError::NotMapped { key: A }));
    assert_eq!(m.unbind(W), Err(MappingError::WouldBeEmpty));
    assert_eq!(m.len(), 1);
}

#[test]
fn zmena_zkratky_se_validuje() {
    let mut m = Mapping::default();
    assert!(matches!(m.set_toggle_key(W), Err(MappingError::ToggleKeyMapped { .. })));
    assert_eq!(m.set_toggle_key(ESC), Err(MappingError::ToggleIsEscape));
    assert_eq!(m.set_toggle_key(X), Ok(()));
    assert_eq!(m.toggle_key(), X);
}

#[test]
fn bindings_are_ordered_by_slot() {
    let m = Mapping::new(SCROLL_LOCK, &[(ARROW_UP, UP), (W, A_BTN), (A, UP)]).unwrap();
    assert_eq!(m.bindings(), vec![(W, A_BTN), (A, UP), (ARROW_UP, UP)]);
    assert_eq!(m.keys_for(UP), vec![A, ARROW_UP]);
    let again = Mapping::new(m.toggle_key(), &m.bindings()).unwrap();
    assert_eq!(again, m);
}

#[test]
fn unmappable_toggle_key_is_refused_later_too() {
    let mut m = Mapping::default();
    assert_eq!(
        m.set_toggle_key(KeyId::new(0)),
        Err(MappingError::Unmappable { key: KeyId::new(0), action: None })
    );
    assert_eq!(m.toggle_key(), SCROLL_LOCK);
}

#[test]
fn error_texts() {
    assert_eq!(MappingError::Empty.to_text(), "mapování je prázdné");
    assert_eq!(
        MappingError::DuplicateKey { key: W, first: UP, second: A_BTN }.to_text(),
        "klávesa 0x11 je přiřazena dvěma akcím (LeftStick(Up) a Button(A))"
    );
    assert_eq!(
        MappingError::ToggleKeyMapped { key: SCROLL_LOCK, action: Action::RightTrigger }.to_text(),
        "klávesa 0x46 je zkratka přepnutí a nemůže zároveň ovládat RightTrigger"
    );
    assert_eq!(
        MappingError::Unmappable { key: ARROW_UP, action: None }.to_text(),
        "klávesu E0 0x48 nelze mapovat"
    );
    assert_eq!(MappingError::NotMapped { key: A }.to_text(), "klávesa 0x1E nemá vazbu");
    assert_eq!(MappingError::ToggleIsEscape.to_text(), "Esc nemůže být zkratka přepnutí");
    assert_eq!(MappingError::WouldBeEmpty.to_text(), "poslední vazbu nelze odebrat");
    assert_eq!(format!("{:?}", Action::Button(PadButton::DpadLeft)), Action::Button(PadButton::DpadLeft).to_text());
}
