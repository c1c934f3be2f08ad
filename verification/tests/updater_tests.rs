use keypad::logger::{formatuj_cas, je_vlastni, Rozklad};
use keypad::update::{
    zaznam_kontroly, aktualizovatelna_verze, je_stazeny_instalator, jmeno_instalatoru, nova_verze, zjisti, zkratka,
};
use keypad::updater::{
    clean_version, is_newer, latest_commit, looks_like_exe, parse_commit_sha, parse_version,
    release_file_path, remote_version, APP_IDENTIFIER,
};

#[test]
fn sha_z_odpovedi_api() {
    let body = r#"{"sha":"6f39a52c0ffee1234","node_id":"x","commit":{"tree":{"sha":"aaaaaaa"}}}"#;
    assert_eq!(parse_commit_sha(body).as_deref(), Some("6f39a52c0ffee1234"));
}

#[test]
fn neplatna_odpoved_neni_commit() {
    assert_eq!(parse_commit_sha(r#"{"message":"Not Found"}"#), None);
    assert_eq!(parse_commit_sha(r#"{"sha":"12"}"#), None);
}

#[test]
fn commit_answer_becomes_result() {
    assert_eq!(latest_commit(Ok(r#"{"sha":"abcdef0123"}"#)), Ok("abcdef0123".to_string()));
    assert_eq!(
        latest_commit(Ok("{}")),
        Err("odpověď GitHubu neobsahuje platný commit".to_string())
    );
    assert_eq!(latest_commit(Err("síť".into())), Err("síť".to_string()));
}

#[test]
fn exe_se_pozna_podle_mz() {
    let mut ok = vec![0u8; 200_000];
    ok[0] = b'M';
    ok[1] = b'Z';
    assert!(looks_like_exe(&ok));
    assert!(!looks_like_exe(b"<!DOCTYPE html>"));
    assert!(!looks_like_exe(&ok[..1000]));
}

#[test]
fn novejsi_verze() {
    let a = "0.1.0+20260924.2235";
    let b = "0.1.0+20260925.0010";
    assert!(is_newer(b, a));
    assert!(!is_newer(a, b), "an older one from the cache is not offered");
    assert!(!is_newer(a, a));
    assert!(is_newer("0.2.0+20260101.0000", "0.1.9+20261231.2359"));
    assert!(is_newer("0.10.0+20260101.0000", "0.9.0+20260101.0000"));
    assert!(is_newer("1.0", "0.1.0+20260924.2235"));
    assert!(!is_newer("vlastni", "vlastni"));
    assert!(is_newer("0.1.0+2026", "0.1.0+20260924.2235"));
}

#[test]
fn razitko_musi_mit_pevny_tvar() {
    assert!(parse_version("0.1.0+20260924.2235").is_some());
    assert!(parse_version("0.1.0+2026092.42235").is_none());
    assert!(parse_version("0.1.0+20260924-2235").is_none());
    assert!(parse_version("0.1.x+20260924.2235").is_none());
}

#[test]
fn parsed_version_parts() {
    assert_eq!(
        parse_version(" 0.10.3+20260924.2235\n"),
        Some((vec![0, 10, 3], "20260924.2235".to_string()))
    );
    assert!(parse_version("0..1+20260924.2235").is_none(), "empty part");
    assert!(parse_version("18446744073709551616+20260924.2235").is_none(), "too big");
    assert_eq!(
        parse_version("18446744073709551615+20260924.2235"),
        Some((vec![u64::MAX], "20260924.2235".to_string()))
    );
    assert!(is_newer("0.1.0.1+20260101.0000", "0.1.0+20260101.0000"), "longer base is newer");
}

#[test]
fn identifikator_sedi_s_tauri_conf() {
    assert_eq!(APP_IDENTIFIER, "cz.hexel.keypad");
}

#[test]
fn version_text_is_cleaned() {
    assert_eq!(clean_version("0.1.0+1\r\n").as_deref(), Some("0.1.0+1"));
    assert_eq!(clean_version(" \n "), None);
    assert_eq!(remote_version(Ok("  ")), Err("server vrátil prázdnou verzi".to_string()));
    assert_eq!(remote_version(Ok("0.2.0+1\n")), Ok("0.2.0+1".to_string()));
    assert_eq!(
        release_file_path("abc1234", "version.txt"),
        "/iva-exe/KeyPad/abc1234/release/version.txt"
    );
}

// ── Update ─────────────────────────────────────────────────────────

#[test]
fn jmeno_instalatoru_je_pro_kazdy_pokus_jine() {
    let sha = "6f39a52c0ffee1234";
    assert_eq!(jmeno_instalatoru(sha, 1_727_200_000_123), "KeyPadSetup-6f39a52-1727200000123.exe");
    assert_ne!(jmeno_instalatoru(sha, 1), jmeno_instalatoru(sha, 2));
    assert_eq!(jmeno_instalatoru("abc", 5), "KeyPadSetup-abc-5.exe");
}

#[test]
fn uklid_pozna_jen_stazene_instalatory() {
    assert!(je_stazeny_instalator("KeyPadSetup-6f39a52-1727200000123.exe"));
    assert!(je_stazeny_instalator("KeyPadSetup-6f39a52.exe"));
    assert!(je_stazeny_instalator("keypadsetup-x.EXE"));
    assert!(!je_stazeny_instalator("KeyPadSetup.exe"));
    assert!(!je_stazeny_instalator("KeyPad.exe"));
    assert!(!je_stazeny_instalator("KeyPadSetup-6f39a52.exe.txt"));
}

#[test]
fn installer_names_are_cleaned_up() {
    for ms in [0u128, 9, 10, u128::MAX] {
        assert!(je_stazeny_instalator(&jmeno_instalatoru("0123456789", ms)));
    }
    assert_eq!(zkratka("0123456789"), "0123456");
    assert_eq!(zkratka("012345"), "012345");
    assert_eq!(zkratka("ábcdefgh"), "ábcdef", "seven bytes, six characters");
}

#[test]
fn update_offer() {
    let i = zjisti("0.1.0+20260924.2235".into(), Ok("0.1.0+20260925.0010".into()));
    assert!(i.available);
    assert_eq!(i.error, None);
    let i = zjisti("0.1.0+20260925.0010".into(), Ok("0.1.0+20260924.2235".into()));
    assert!(!i.available, "an older release is not offered");
    let i = zjisti(String::new(), Err("síť".into()));
    assert!(!i.available);
    assert_eq!(i.latest, "");
    assert_eq!(i.error.as_deref(), Some("síť"));
}

#[test]
fn updatable_copy() {
    assert!(aktualizovatelna_verze(None, true, "C:\\p").unwrap_err().starts_with("vývojová verze"));
    assert_eq!(
        aktualizovatelna_verze(Some("1".into()), false, "C:\\p"),
        Err("přenosná kopie (neběží z C:\\p) — aktualizuj přes KeyPadSetup.exe".to_string())
    );
    assert_eq!(aktualizovatelna_verze(Some("1".into()), true, "C:\\p"), Ok("1".to_string()));
}

#[test]
fn release_to_install_must_be_newer() {
    assert_eq!(
        nova_verze("0.1.0+20260924.2235", " 0.1.0+20260925.0010\n"),
        Ok("0.1.0+20260925.0010".to_string())
    );
    assert!(nova_verze("0.1.0+20260924.2235", "  ").unwrap_err().starts_with("vydání na GitHubu"));
    assert_eq!(
        nova_verze("0.1.0+20260924.2235", "0.1.0+20260924.2235"),
        Err("už máš nejnovější verzi 0.1.0+20260924.2235 (GitHub chvíli ukazoval jiný údaj) — \
             kdyby nabídka nezmizela, zkus to za pár minut znovu"
            .to_string())
    );
}

// ── Logger ─────────────────────────────────────────────────────────

#[test]
fn epocha_je_1970() {
    assert_eq!(Rozklad::z_unix_ms(0).text("Z"), "1970-01-01 00:00:00.000Z");
}

#[test]
fn znamy_okamzik() {
    assert_eq!(Rozklad::z_unix_ms(1_709_214_307_089).text("Z"), "2024-02-29 13:45:07.089Z");
    assert_eq!(Rozklad::z_unix_ms(1_735_689_599_999).text("Z"), "2024-12-31 23:59:59.999Z");
    assert_eq!(Rozklad::z_unix_ms(1_735_689_600_000).text("Z"), "2025-01-01 00:00:00.000Z");
}

#[test]
fn pred_epochou() {
    assert_eq!(Rozklad::z_unix_ms(-1).text("Z"), "1969-12-31 23:59:59.999Z");
}

#[test]
fn extreme_instants() {
    let r = Rozklad::z_unix_ms(i64::MIN);
    assert!(r.rok < 0 && (1..=12).contains(&r.mesic));
    assert!(r.text("Z").starts_with('-'));
    let r = Rozklad::z_unix_ms(i64::MAX);
    assert_eq!(r.rok, 292_278_994);
    let r = Rozklad::z_unix_ms(-62_135_596_800_000 - 86_400_000);
    assert_eq!(r.text(""), "0000-12-31 00:00:00.000");
    let r = Rozklad::z_unix_ms(-62_167_219_200_000 - 86_400_000);
    assert_eq!(r.text(""), "-001-12-31 00:00:00.000");
}

#[test]
fn stamp_prefers_local_time() {
    let utc = Rozklad::z_unix_ms(0);
    let local = Rozklad { hodina: 1, ..utc };
    assert_eq!(formatuj_cas(&utc, Some(local)), "1970-01-01 01:00:00.000");
    assert_eq!(formatuj_cas(&utc, None), "1970-01-01 00:00:00.000Z");
}

#[test]
fn vlastni_cile() {
    assert!(je_vlastni("keypad"));
    assert!(je_vlastni("KeyPad"));
    assert!(je_vlastni("KeyPad::update"));
    assert!(je_vlastni("updater::http"));
    assert!(je_vlastni("keypad_core::engine"));
    assert!(!je_vlastni("keypadx"));
    assert!(!je_vlastni("tauri::manager"));
    assert!(!je_vlastni("wry"));
}

#[test]
fn check_log_lines() {
    let i = zjisti("1".into(), Err("síť".into()));
    assert_eq!(zaznam_kontroly(&i), "kontrola aktualizace: síť");
    let i = zjisti("0.1.0+20260924.2235".into(), Ok("0.1.0+20260925.0010".into()));
    assert_eq!(
        zaznam_kontroly(&i),
        "je dostupná nová verze 0.1.0+20260925.0010 (běží 0.1.0+20260924.2235)"
    );
    let i = zjisti("2".into(), Ok("2".into()));
    assert_eq!(zaznam_kontroly(&i), "aktualizace: verze 2 je aktuální (v repozitáři 2)");
}
