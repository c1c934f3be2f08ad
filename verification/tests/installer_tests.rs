use keypad::prereq::{webview2_version_ok, VIGEMBUS_URL};
use keypad::proc::{close_app, pick, CloseProgress, CloseStep, Closed, TopWindow};
use keypad::setup::{
    uninstall_entry, RegValue,
    cleanup_env, download_status, headline, outcome, plan, uninstall_message, untouched, Done,
    Plan, CLEANUP_COMMAND,
};
use keypad::setup_window::{rgb, Link, Phase, State, StepState};
use keypad::updater::{SETUP_EXE, WEBVIEW2_URL};

// ── Plan ───────────────────────────────────────────────────────────

#[test]
fn stejna_verze_se_soubory_je_aktualni() {
    assert_eq!(plan(Some("0.1.0+1"), "0.1.0+1", true), Plan::UpToDate);
    assert_eq!(plan(Some("0.1.0+1\r\n"), " 0.1.0+1", true), Plan::UpToDate);
}

#[test]
fn stejna_verze_bez_binarky_je_oprava() {
    assert_eq!(plan(Some("0.1.0+1"), "0.1.0+1", false), Plan::Repair);
}

#[test]
fn jina_verze_je_aktualizace_i_smerem_dolu() {
    assert_eq!(
        plan(Some("0.1.0+1"), "0.1.0+2", true),
        Plan::Update { from: "0.1.0+1".into(), to: "0.1.0+2".into() }
    );
    assert_eq!(
        plan(Some("0.1.0+2"), "0.1.0+1", false),
        Plan::Update { from: "0.1.0+2".into(), to: "0.1.0+1".into() }
    );
}

#[test]
fn bez_verze_je_cista_instalace() {
    assert_eq!(plan(None, "0.1.0+1", false), Plan::Fresh);
    assert_eq!(plan(None, "0.1.0+1", true), Plan::Fresh);
    assert_eq!(plan(Some("  "), "0.1.0+1", true), Plan::Fresh);
}

#[test]
fn update_versions_are_trimmed() {
    assert_eq!(
        plan(Some(" 0.1.0+1\n"), "\t0.1.0+3 ", true),
        Plan::Update { from: "0.1.0+1".into(), to: "0.1.0+3".into() }
    );
}

// ── Closing message ────────────────────────────────────────────────

#[test]
fn bez_webview2_se_nespousti_a_okno_zustane() {
    let d = outcome("KeyPad 1 je nainstalovaný", false, None, true, &[]);
    assert!(d.attention);
    assert!(d.message.contains(WEBVIEW2_URL));
    assert!(d.message.contains("KeyPadSetup znovu"));
    assert_eq!(d.link.map(|l| l.url), Some(WEBVIEW2_URL.to_string()));
}

#[test]
fn chybejici_vigembus_neni_chyba() {
    let d = outcome("KeyPad 1 je nainstalovaný", true, Some(Ok(())), false, &[]);
    assert!(!d.attention);
    assert!(d.message.starts_with("Hotovo"));
    assert!(d.message.contains(VIGEMBUS_URL));
    assert_eq!(d.link.map(|l| l.url), Some(VIGEMBUS_URL.to_string()));
}

#[test]
fn chybi_oboji_prednost_ma_webview2() {
    let d = outcome("KeyPad 1 je nainstalovaný", false, None, false, &[]);
    assert!(d.attention);
    assert!(d.message.contains(VIGEMBUS_URL));
    assert_eq!(d.link.map(|l| l.url), Some(WEBVIEW2_URL.to_string()));
}

#[test]
fn vse_v_poradku_bez_odkazu() {
    let d = outcome("KeyPad 1 je aktuální", true, Some(Ok(())), true, &[]);
    assert_eq!(d, Done::plain("Hotovo — KeyPad 1 je aktuální a běží. Najdeš ho i v nabídce Start."));
}

#[test]
fn nepovedene_spusteni_a_poznamky_jsou_ve_zprave() {
    let d = outcome(
        "KeyPad 1 je nainstalovaný",
        true,
        Some(Err("přístup odepřen".into())),
        true,
        &["zástupce nevznikl".into()],
    );
    assert!(d.message.contains("přístup odepřen"));
    assert!(d.message.ends_with("Pozor: zástupce nevznikl"));
    assert!(d.attention);
}

#[test]
fn nespusteni_nebo_poznamka_nechaji_okno_otevrene() {
    let h = "KeyPad je aktualizovaný na 2";
    let d = outcome(h, true, Some(Err("blokováno".into())), true, &[]);
    assert!(d.attention);
    assert!(d.message.contains("blokováno"));
    let d = outcome(h, true, Some(Ok(())), true, &["zástupce nevznikl".into()]);
    assert!(d.attention);
    let d = outcome(h, true, Some(Err("x".into())), false, &[]);
    assert!(d.attention);
    assert_eq!(d.link.map(|l| l.url), Some(VIGEMBUS_URL.to_string()));
    assert!(!outcome(h, true, Some(Ok(())), true, &[]).attention);
}

#[test]
fn outcome_messages_in_full() {
    let d = outcome("KeyPad 1 je nainstalovaný", false, None, false, &["a".into(), "b".into()]);
    assert_eq!(
        d.message,
        "KeyPad 1 je nainstalovaný, ale zatím ho nespouštím — chybí Microsoft Edge WebView2 \
         Runtime, bez kterého se okno KeyPadu neotevře.\nNainstaluj ho z \
         https://go.microsoft.com/fwlink/p/?LinkId=2124703 a spusť KeyPadSetup znovu, víc není \
         potřeba.\nChybí ještě ovladač ViGEmBus — bez něj KeyPad nevytvoří gamepad. Stáhneš ho z \
         https://github.com/nefarius/ViGEmBus/releases (ovladač chce práva správce, KeyPad sám \
         ne).\nPozor: a\nPozor: b"
    );
    assert_eq!(
        d.link,
        Some(Link { label: "Stáhnout WebView2".into(), url: WEBVIEW2_URL.into() })
    );
    let d = outcome("H", true, Some(Err("e".into())), true, &[]);
    assert_eq!(d.message, "Hotovo — H, jen se ho nepodařilo spustit (e). Spusť ho z nabídky Start.");
    assert_eq!(d.link, None);
}

#[test]
fn nadpis_podle_planu() {
    assert_eq!(headline(&Plan::Fresh, "1"), "KeyPad 1 je nainstalovaný");
    assert_eq!(
        headline(&Plan::Update { from: "1".into(), to: "2".into() }, "2"),
        "KeyPad je aktualizovaný na 2"
    );
    assert_eq!(headline(&Plan::UpToDate, "3"), "KeyPad 3 je aktuální");
    assert_eq!(headline(&Plan::Repair, "4"), "KeyPad 4 je opravený");
}

#[test]
fn download_status_by_plan() {
    assert_eq!(download_status(&Plan::UpToDate, "1"), None);
    assert_eq!(
        download_status(&Plan::Repair, "1").as_deref(),
        Some("verze 1 sedí, ale chybí KeyPad.exe — opravuji")
    );
    assert_eq!(
        download_status(&Plan::Update { from: "1".into(), to: "2".into() }, "2").as_deref(),
        Some("aktualizuji 1 → 2")
    );
    assert_eq!(download_status(&Plan::Fresh, "5").as_deref(), Some("instaluji 5"));
}

#[test]
fn untouched_says_nothing_changed() {
    assert_eq!(
        untouched("Stažení se nepovedlo", "timeout"),
        "Stažení se nepovedlo: timeout.\nNa disku se nic nezměnilo."
    );
}

#[test]
fn uninstall_messages() {
    assert_eq!(
        uninstall_message(false, false, "C:\\x", None),
        "KeyPad tu nainstalovaný nebyl — nebylo co odebírat."
    );
    assert_eq!(uninstall_message(true, false, "C:\\x", None), "KeyPad je odebraný.");
    assert_eq!(
        uninstall_message(true, true, "C:\\x", Some("C:\\wv")),
        "KeyPad je odebraný.\nTvoje nastavení (config.toml) zůstalo v C:\\x — smaž ho ručně, \
         pokud ho už nechceš.\nData okna (WebView2) v C:\\wv se nepodařilo smazat celá — nejspíš \
         je ještě drží dobíhající proces WebView2. Smaž tu složku ručně."
    );
}

#[test]
fn uklid_bere_cesty_z_promennych() {
    let cmd = CLEANUP_COMMAND;
    assert!(cmd.starts_with("/D /V:OFF /S /C \"\"%KP_PING%\" -n 3 127.0.0.1 >nul & "));
    assert!(cmd.contains(" & del /F /Q \"%KP_SETUP%\" 2>nul & "));
    assert!(cmd.contains(" & rmdir \"%KP_DIR%\" 2>nul"));
    assert!(cmd.ends_with("2>nul\""));
    assert_eq!(cmd.matches('"').count(), 8);
    assert_eq!(cmd.matches('%').count(), 6);

    let dir = r"C:\Users\x%OS%y\AppData\Local\Programs\KeyPad";
    let setup = format!("{dir}\\{SETUP_EXE}");
    let ping = r"C:\Windows\System32\PING.EXE";
    let env = cleanup_env(ping, &setup, dir);
    for (name, _) in &env {
        assert!(cmd.contains(&format!("\"%{name}%\"")), "{name}");
    }
    assert!(std::path::Path::new(&env[0].1).is_absolute() || env[0].1.starts_with("C:\\"));
    assert!(env[0].1.ends_with(r"System32\PING.EXE"));
    assert_eq!(env[1].1, setup);
    assert_eq!(env[2].1, dir);
}

// ── Prerequisites ──────────────────────────────────────────────────

#[test]
fn platna_verze_webview2() {
    assert!(webview2_version_ok(Some("128.0.2739.42")));
    assert!(!webview2_version_ok(Some("0.0.0.0")));
    assert!(!webview2_version_ok(Some("")));
    assert!(!webview2_version_ok(Some("  ")));
    assert!(!webview2_version_ok(None));
    assert!(!webview2_version_ok(Some(" 0.0.0.0\r\n")));
}

// ── Closing the running application ───────────────────────────────

fn win(pid: u32, hwnd: isize, main: bool, plain: bool) -> TopWindow {
    TopWindow { pid, hwnd, main, plain }
}

#[test]
fn wm_close_jde_jen_hlavnimu_oknu() {
    let wins = [win(7, 1, false, false), win(7, 2, false, false), win(7, 3, false, true), win(7, 4, true, true)];
    assert_eq!(pick(&wins), vec![4]);
    assert_eq!(pick(&[win(7, 1, false, false), win(7, 4, true, false)]), vec![4]);
}

#[test]
fn bez_hlavniho_okna_jen_bezna_viditelna() {
    let wins = [win(7, 1, false, false), win(7, 2, false, true), win(8, 3, true, true), win(8, 4, false, true)];
    assert_eq!(pick(&wins), vec![2, 3]);
    assert!(pick(&[win(7, 1, false, false)]).is_empty());
}

#[test]
fn closing_goes_politely_then_forcibly() {
    assert_eq!(close_app(CloseProgress::Found(0)), CloseStep::Finished(Ok(Closed::NotRunning)));
    assert_eq!(
        close_app(CloseProgress::Found(2)),
        CloseStep::AskToClose { status: "zavírám běžící KeyPad…".into() }
    );
    assert_eq!(close_app(CloseProgress::AskedToClose(0)), CloseStep::Finished(Ok(Closed::Graceful)));
    assert_eq!(
        close_app(CloseProgress::AskedToClose(1)),
        CloseStep::Kill { status: "KeyPad neodpovídá — ukončuji ho natvrdo…".into() }
    );
    assert_eq!(close_app(CloseProgress::Killed(0)), CloseStep::Finished(Ok(Closed::Forced)));
    assert!(matches!(close_app(CloseProgress::Killed(1)), CloseStep::Finished(Err(_))));
}

// ── Window state ───────────────────────────────────────────────────

fn st() -> State {
    State::new("KeyPad", "podtitul", "patička", &["a", "b", "c"], "Nainstalovat")
}

#[test]
fn krok_oznaci_predchozi_jako_hotove() {
    let mut s = st();
    s.step(1, "dělám b");
    let states: Vec<_> = s.steps.iter().map(|x| x.1).collect();
    assert_eq!(states, [StepState::Done, StepState::Active, StepState::Waiting]);
    assert_eq!(s.status, "dělám b");
}

#[test]
fn chyba_oznaci_bezici_krok_a_nabidne_opakovani() {
    let mut s = st();
    s.begin();
    s.step(2, "c");
    s.fail("spadlo to");
    assert_eq!(s.phase, Phase::Failed);
    assert_eq!(s.steps[2].1, StepState::Failed);
    assert_eq!(s.primary, "Zkusit znovu");
}

#[test]
fn hotovo_s_odkazem_ma_tlacitko_na_stazeni() {
    let mut s = st();
    s.begin();
    s.finish(
        "chybí WebView2",
        true,
        Some(Link { label: "Stáhnout WebView2".into(), url: "https://example.invalid".into() }),
    );
    assert_eq!(s.phase, Phase::Done);
    assert!(s.attention);
    assert_eq!(s.primary, "Stáhnout WebView2");
    assert!(s.steps.iter().all(|x| x.1 == StepState::Done));
}

#[test]
fn hotovo_bez_odkazu_nema_hlavni_tlacitko() {
    let mut s = st();
    s.begin();
    s.finish("hotovo", false, None);
    assert!(s.primary.is_empty());
    assert_eq!(s.secondary, "Zavřít");
}

#[test]
fn novy_beh_vymaze_minuly_vysledek() {
    let mut s = st();
    s.fail("x");
    s.begin();
    assert_eq!(s.phase, Phase::Working);
    assert!(s.message.is_empty() && s.primary.is_empty() && s.link.is_none());
    assert!(s.steps.iter().all(|x| x.1 == StepState::Waiting));
}

#[test]
fn new_window_waits() {
    let s = st();
    assert_eq!(s.phase, Phase::Ready);
    assert_eq!(s.title, "KeyPad");
    assert_eq!(s.primary, "Nainstalovat");
    assert_eq!(s.secondary, "Zavřít");
    assert_eq!(s.steps.len(), 3);
    assert_eq!(s.steps[0].0, "a");
}

#[test]
fn colours_are_bgr() {
    assert_eq!(rgb(0x16, 0x17, 0x1c), 0x001c_1716);
    assert_eq!(rgb(0xff, 0, 0), 0x0000_00ff);
}

#[test]
fn zaznam_v_aplikacich() {
    let e = uninstall_entry(
        r"C:\U\KeyPad\KeyPadSetup.exe",
        r"C:\U\KeyPad",
        r"C:\U\KeyPad\KeyPad.exe",
        "0.2.0",
        7,
    );
    let text = |s: &str| RegValue::Text(s.to_string());
    assert_eq!(
        e,
        vec![
            ("DisplayName", text("KeyPad")),
            ("DisplayVersion", text("0.2.0")),
            ("Publisher", text("KeyPad")),
            ("InstallLocation", text(r"C:\U\KeyPad")),
            ("DisplayIcon", text(r"C:\U\KeyPad\KeyPad.exe")),
            ("UninstallString", text(r#""C:\U\KeyPad\KeyPadSetup.exe" /uninstall"#)),
            ("ModifyPath", text(r#""C:\U\KeyPad\KeyPadSetup.exe""#)),
            ("URLInfoAbout", text("https://github.com/iva-exe/KeyPad")),
            ("NoModify", RegValue::Number(0)),
            ("NoRepair", RegValue::Number(1)),
            ("EstimatedSize", RegValue::Number(7)),
        ]
    );
}
