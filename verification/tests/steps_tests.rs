use keypad::install::{install_start, install_step, Bar, InstallAction, InstallEvent, InstallStage};
use keypad::key::KeyId;
use keypad::proc::Closed;
use keypad::setup::{Plan, CONFIG_FILE};
use keypad::setup_window::{
    bar_tone, closes_window, message_tone, primary_action, redraws, step_tones, tone_color, Phase,
    PrimaryAction, StepState, Tone, WindowEvent,
};
use keypad::uninstall::{
    side_file_name, uninstall_start, uninstall_step, Place, Question, SideFile, UninstallAction,
    UninstallEvent, UninstallStage,
};

// ── Keys ───────────────────────────────────────────────────────────

#[test]
fn index_nad_tabulkou_se_orizne() {
    assert_eq!(KeyId::from_index(0x111), KeyId { scan: 0x11, extended: false });
    assert_eq!(KeyId::from_index(0x1C8), KeyId { scan: 0x48, extended: true });
    assert_eq!(KeyId::from_index(0x91), KeyId { scan: 0x11, extended: true });
}

// ── Window ─────────────────────────────────────────────────────────

#[test]
fn tichy_rezim_zavre_okno_jen_po_cistem_uspechu() {
    assert!(closes_window(WindowEvent::Tick, true, Phase::Done, false));
    assert!(closes_window(WindowEvent::Timer, true, Phase::Done, false));
    assert!(!closes_window(WindowEvent::Tick, true, Phase::Done, true));
    assert!(!closes_window(WindowEvent::Tick, true, Phase::Failed, false));
    assert!(!closes_window(WindowEvent::Tick, false, Phase::Done, false));
    assert!(!closes_window(WindowEvent::Timer, true, Phase::Working, false));
}

#[test]
fn behem_prace_se_okno_zavrit_neda() {
    assert!(!closes_window(WindowEvent::Close, false, Phase::Working, false));
    assert!(closes_window(WindowEvent::Close, false, Phase::Ready, false));
    assert!(closes_window(WindowEvent::Close, false, Phase::Failed, true));
    assert!(closes_window(WindowEvent::Close, true, Phase::Done, true));
}

#[test]
fn casovac_prekresluje_jen_pri_praci() {
    assert!(redraws(WindowEvent::Timer, Phase::Working));
    assert!(!redraws(WindowEvent::Timer, Phase::Done));
    assert!(redraws(WindowEvent::Tick, Phase::Ready));
    assert!(!redraws(WindowEvent::Close, Phase::Working));
}

#[test]
fn hlavni_tlacitko() {
    assert_eq!(primary_action(Phase::Done, true, true), PrimaryAction::OpenLink);
    assert_eq!(primary_action(Phase::Done, false, true), PrimaryAction::Nothing);
    assert_eq!(primary_action(Phase::Ready, false, true), PrimaryAction::Start);
    assert_eq!(primary_action(Phase::Failed, true, true), PrimaryAction::Start);
    assert_eq!(primary_action(Phase::Working, false, true), PrimaryAction::Nothing);
    assert_eq!(primary_action(Phase::Ready, false, false), PrimaryAction::Nothing);
}

#[test]
fn barvy_okna() {
    assert_eq!(tone_color(Tone::Background), 0x12_0f_0e);
    assert_eq!(tone_color(Tone::Good), 0x80_de_4a);
    assert_eq!(tone_color(Tone::Danger), 0x44_44_ef);
    assert_eq!(step_tones(StepState::Failed), (Tone::Danger, Tone::Danger));
    assert_eq!(step_tones(StepState::Active), (Tone::Accent, Tone::Text));
    assert_eq!(bar_tone(Phase::Done, true), Tone::Warn);
    assert_eq!(bar_tone(Phase::Done, false), Tone::Good);
    assert_eq!(bar_tone(Phase::Working, false), Tone::Accent);
    assert_eq!(message_tone(Phase::Failed, false), Tone::Danger);
    assert_eq!(message_tone(Phase::Done, true), Tone::Warn);
    assert_eq!(message_tone(Phase::Ready, true), Tone::TextDim);
}

// ── Uninstall ──────────────────────────────────────────────────────

/// Runs an uninstallation in which everything works, answering the
/// questions as given; returns the actions and the last state.
fn run_uninstall(
    webview: bool,
    webview_gone: bool,
    from_copy: bool,
    config: bool,
) -> (Vec<UninstallAction>, keypad::uninstall::UninstallState) {
    let mut st = uninstall_start();
    let mut ev = UninstallEvent::Start { found: true };
    let mut seen = Vec::new();
    for _ in 0..100 {
        let (next, action) = uninstall_step(st, ev);
        st = next;
        ev = match &action {
            UninstallAction::Ask(Question::WebviewData) => UninstallEvent::Answer(webview),
            UninstallAction::Ask(Question::RunningFromSetupCopy) => UninstallEvent::Answer(from_copy),
            UninstallAction::Ask(Question::ConfigLeft) => UninstallEvent::Answer(config),
            UninstallAction::RemoveWebviewData => UninstallEvent::Answer(webview_gone),
            _ => UninstallEvent::Done(Ok(())),
        };
        let end = matches!(action, UninstallAction::Finish(_));
        seen.push(action);
        if end {
            break;
        }
    }
    (seen, st)
}

#[test]
fn odinstalace_odebere_vse_krome_nastaveni() {
    let (seen, st) = run_uninstall(true, true, false, true);
    assert_eq!(seen.first(), Some(&UninstallAction::Step { idx: 0, status: "hledám běžící KeyPad…", permille: None }));
    assert_eq!(seen.last(), Some(&UninstallAction::Finish(Ok(()))));
    for wanted in [
        UninstallAction::CloseApp,
        UninstallAction::RemoveApp,
        UninstallAction::RemoveFile { place: Place::InstallDir, file: SideFile::AppNew },
        UninstallAction::RemoveFile { place: Place::InstallDir, file: SideFile::Version },
        UninstallAction::RemoveFile { place: Place::InstallDir, file: SideFile::Log },
        UninstallAction::RemoveFile { place: Place::InstallDir, file: SideFile::OldLog },
        UninstallAction::RemoveWebviewData,
        UninstallAction::RemoveFile { place: Place::Roaming, file: SideFile::Log },
        UninstallAction::RemoveEmptyDir(Place::Roaming),
        UninstallAction::RemoveDownloads,
        UninstallAction::RemoveShortcut,
        UninstallAction::Unregister,
        UninstallAction::RemoveFile { place: Place::InstallDir, file: SideFile::SetupCopy },
        UninstallAction::RemoveEmptyDir(Place::InstallDir),
    ] {
        assert!(seen.contains(&wanted), "{wanted:?} chybí v {seen:?}");
    }
    for a in &seen {
        if let UninstallAction::RemoveFile { file, .. } = a {
            assert_ne!(side_file_name(*file), CONFIG_FILE);
        }
    }
    // Files before the shortcut and the entry; the folder last.
    let pos = |a: &UninstallAction| seen.iter().position(|x| x == a).unwrap();
    assert!(pos(&UninstallAction::RemoveApp) < pos(&UninstallAction::RemoveShortcut));
    assert!(pos(&UninstallAction::Unregister) < pos(&UninstallAction::RemoveEmptyDir(Place::InstallDir)));
    assert_eq!(st.stage, UninstallStage::Finished);
    assert!(st.found && st.config_left && !st.webview_left);
}

#[test]
fn odinstalace_z_kopie_ji_nemaze_a_hlasi_zbyla_data() {
    let (seen, st) = run_uninstall(true, false, true, false);
    assert!(!seen.contains(&UninstallAction::RemoveFile {
        place: Place::InstallDir,
        file: SideFile::SetupCopy
    }));
    assert!(st.webview_left && !st.config_left);
    let (seen, _) = run_uninstall(false, false, false, false);
    assert!(!seen.contains(&UninstallAction::RemoveWebviewData));
}

#[test]
fn nepovedene_zavreni_ukonci_odinstalaci() {
    let mut st = uninstall_start();
    let mut ev = UninstallEvent::Start { found: true };
    let mut seen = Vec::new();
    loop {
        let (next, action) = uninstall_step(st, ev);
        st = next;
        ev = match &action {
            UninstallAction::CloseApp => UninstallEvent::Done(Err("drží se".to_string())),
            _ => UninstallEvent::Done(Ok(())),
        };
        let end = matches!(action, UninstallAction::Finish(_));
        seen.push(action);
        if end {
            break;
        }
    }
    assert_eq!(seen.last(), Some(&UninstallAction::Finish(Err("drží se".to_string()))));
    assert!(!seen.contains(&UninstallAction::RemoveApp));
}

// ── Install ────────────────────────────────────────────────────────

fn exe() -> Vec<u8> {
    let mut d = vec![0u8; 100_000];
    d[0] = b'M';
    d[1] = b'Z';
    d
}

/// Runs an installation; `answer` gives the reply to each action.
fn run_install(
    mut answer: impl FnMut(&InstallAction) -> InstallEvent,
) -> (Vec<InstallAction>, keypad::install::InstallState) {
    let mut st = install_start();
    let mut ev = InstallEvent::Start;
    let mut seen = Vec::new();
    for _ in 0..100 {
        let (next, action) = install_step(st, ev);
        st = next;
        ev = answer(&action);
        let end = matches!(action, InstallAction::Finish(_) | InstallAction::Nothing);
        seen.push(action);
        if end {
            break;
        }
    }
    (seen, st)
}

fn update_answers(a: &InstallAction) -> InstallEvent {
    match a {
        InstallAction::FetchCommit => InstallEvent::Fetched(Ok("abc".to_string())),
        InstallAction::FetchVersion => InstallEvent::Fetched(Ok("0.2.0\r\n".to_string())),
        InstallAction::AskInstalled => {
            InstallEvent::Installed { version: Some("0.1.0".to_string()), files_ok: true }
        }
        InstallAction::Download => InstallEvent::Downloaded(Ok(exe())),
        InstallAction::CloseApp => InstallEvent::Closed(Ok(Closed::Graceful)),
        InstallAction::WriteFiles => InstallEvent::Written(Ok(())),
        _ => InstallEvent::Done,
    }
}

#[test]
fn aktualizace_stahne_zavre_zapise_a_zaregistruje() {
    let (seen, st) = run_install(update_answers);
    let order: Vec<&InstallAction> = seen.iter().filter(|a| !matches!(a, InstallAction::Step { .. })).collect();
    assert_eq!(
        order,
        vec![
            &InstallAction::FetchCommit,
            &InstallAction::FetchVersion,
            &InstallAction::AskInstalled,
            &InstallAction::Download,
            &InstallAction::ShowSize,
            &InstallAction::CloseApp,
            &InstallAction::WriteFiles,
            &InstallAction::Register,
            &InstallAction::Finish(Ok("KeyPad je aktualizovaný na 0.2.0".to_string())),
        ]
    );
    assert!(seen.contains(&InstallAction::Step {
        idx: 1,
        status: "aktualizuji 0.1.0 → 0.2.0, stahuji…".to_string(),
        bar: Bar::Keep
    }));
    assert!(seen.contains(&InstallAction::Step {
        idx: 3,
        status: "zapisuji do profilu…".to_string(),
        bar: Bar::At(700)
    }));
    assert_eq!(st.version, "0.2.0");
    assert_eq!(st.commit, "abc");
    assert_eq!(st.closed, Closed::Graceful);
    assert_eq!(st.plan, Plan::Update { from: "0.1.0".to_string(), to: "0.2.0".to_string() });
}

#[test]
fn aktualni_verze_nic_nestahuje() {
    let (seen, _) = run_install(|a| match a {
        InstallAction::AskInstalled => {
            InstallEvent::Installed { version: Some("0.2.0".to_string()), files_ok: true }
        }
        other => update_answers(other),
    });
    assert!(!seen.contains(&InstallAction::Download));
    assert!(!seen.contains(&InstallAction::WriteFiles));
    assert!(seen.contains(&InstallAction::EnsureSetupCopy));
    assert_eq!(
        seen.last(),
        Some(&InstallAction::Finish(Ok("KeyPad 0.2.0 je aktuální".to_string())))
    );
}

#[test]
fn chyba_pred_zapisem_nic_nezmeni() {
    let (seen, _) = run_install(|a| match a {
        InstallAction::FetchCommit => InstallEvent::Fetched(Err("bez sítě".to_string())),
        other => update_answers(other),
    });
    assert_eq!(
        seen.last(),
        Some(&InstallAction::Finish(Err(
            "Nepodařilo se zjistit aktuální verzi: bez sítě.\nNa disku se nic nezměnilo."
                .to_string()
        )))
    );
    let (seen, _) = run_install(|a| match a {
        InstallAction::FetchVersion => InstallEvent::Fetched(Ok(" \n".to_string())),
        other => update_answers(other),
    });
    assert_eq!(
        seen.last(),
        Some(&InstallAction::Finish(Err("Nepodařilo se zjistit aktuální verzi: server vrátil \
prázdnou verzi.\nNa disku se nic nezměnilo."
            .to_string())))
    );
    let (seen, _) = run_install(|a| match a {
        InstallAction::Download => InstallEvent::Downloaded(Ok(b"<html>".to_vec())),
        other => update_answers(other),
    });
    assert_eq!(
        seen.last(),
        Some(&InstallAction::Finish(Err("KeyPad.exe se stáhl poškozený (6 B): zkus to za \
chvíli znovu.\nNa disku se nic nezměnilo."
            .to_string())))
    );
    assert!(!seen.contains(&InstallAction::CloseApp));
    let (seen, _) = run_install(|a| match a {
        InstallAction::CloseApp => InstallEvent::Closed(Err("běží jako správce".to_string())),
        other => update_answers(other),
    });
    assert_eq!(
        seen.last(),
        Some(&InstallAction::Finish(Err(
            "běží jako správce\nNa disku se nic nezměnilo.".to_string()
        )))
    );
    assert!(!seen.contains(&InstallAction::WriteFiles));
}

#[test]
fn nepovedeny_zapis_po_zavreni_spusti_aplikaci_znovu() {
    let (seen, st) = run_install(|a| match a {
        InstallAction::WriteFiles => InstallEvent::Written(Err("plný disk".to_string())),
        InstallAction::Relaunch => InstallEvent::Relaunched(true),
        other => update_answers(other),
    });
    assert!(seen.contains(&InstallAction::Relaunch));
    assert_eq!(
        seen.last(),
        Some(&InstallAction::Finish(Err(
            "plný disk\nKeyPad jsem zase spustil, ať nezůstaneš bez aplikace.".to_string()
        )))
    );
    assert_eq!(st.stage, InstallStage::Finished);
    // Nothing was running: nothing to start again.
    let (seen, _) = run_install(|a| match a {
        InstallAction::CloseApp => InstallEvent::Closed(Ok(Closed::NotRunning)),
        InstallAction::WriteFiles => InstallEvent::Written(Err("plný disk".to_string())),
        other => update_answers(other),
    });
    assert!(!seen.contains(&InstallAction::Relaunch));
    assert_eq!(seen.last(), Some(&InstallAction::Finish(Err("plný disk".to_string()))));
}
