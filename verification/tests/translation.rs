use link_p2p::i18n::{
    candidates, env_lang, init, language_prefs, lookup, mo_path, normalize_lang, parse_mo,
    reset_catalog, resolve_lang, say1, say2, say3, tr_fmt, tr_fmt_impl, Catalog, CatalogFile,
};
use link_p2p::paths::{Base, Location};

fn strings(v: &[&str]) -> Vec<String> {
    v.iter().map(|s| s.to_string()).collect()
}

#[test]
fn args_are_not_rescanned() {
    let args = ["{1}".to_string(), "X".to_string()];
    assert_eq!(tr_fmt_impl("{0} and {1}", &args), "{1} and X");
}

#[test]
fn literal_fallback_cases() {
    let args = ["a".to_string()];
    assert_eq!(tr_fmt_impl("{0} {1} {", &args), "a {1} {");
    assert_eq!(tr_fmt_impl("plain", &args), "plain");
    let args2 = ["a".to_string(), "b".to_string(), "c".to_string()];
    assert_eq!(tr_fmt_impl("{2}{0}{1}", &args2), "cab");
}

#[test]
fn format_widths_are_no_placeholders() {
    let args = strings(&["1", "2", "3"]);
    assert_eq!(tr_fmt_impl("{0}/{1} ({2:.0}%)", &args), "1/2 ({2:.0}%)");
    assert_eq!(tr_fmt_impl("{}{x}{00}{99}", &args), "{}{x}1{99}");
}

#[test]
fn normalize_lang_handles_suffixes_and_casing() {
    assert_eq!(normalize_lang("ja_JP.UTF-8"), Some("ja_JP"));
    assert_eq!(normalize_lang("zh-CN"), Some("zh_CN"));
    assert_eq!(normalize_lang("es_ES.utf8"), Some("es_ES"));
    assert_eq!(normalize_lang("ja"), Some("ja_JP"));
    assert_eq!(normalize_lang("C"), None);
    assert_eq!(normalize_lang("POSIX"), None);
    assert_eq!(normalize_lang("fr_FR"), None);
}

fn build_mo(pairs: &[(&str, &str)]) -> Vec<u8> {
    let n = pairs.len() as u32;
    let base = 28 + 2 * n as usize * 8;
    let mut body = Vec::new();
    let mut origs = Vec::new();
    let mut trans = Vec::new();
    for (o, t) in pairs {
        origs.push((o.len(), base + body.len()));
        body.extend_from_slice(o.as_bytes());
        body.push(0);
        trans.push((t.len(), base + body.len()));
        body.extend_from_slice(t.as_bytes());
        body.push(0);
    }
    let orig_tab = 28u32;
    let trans_tab = 28 + n * 8;
    let mut out = Vec::new();
    out.extend_from_slice(&0x9504_12deu32.to_le_bytes());
    out.extend_from_slice(&0u32.to_le_bytes());
    out.extend_from_slice(&n.to_le_bytes());
    out.extend_from_slice(&orig_tab.to_le_bytes());
    out.extend_from_slice(&trans_tab.to_le_bytes());
    out.extend_from_slice(&0u32.to_le_bytes());
    out.extend_from_slice(&0u32.to_le_bytes());
    for (len, off) in origs {
        out.extend_from_slice(&(len as u32).to_le_bytes());
        out.extend_from_slice(&(off as u32).to_le_bytes());
    }
    for (len, off) in trans {
        out.extend_from_slice(&(len as u32).to_le_bytes());
        out.extend_from_slice(&(off as u32).to_le_bytes());
    }
    out.extend_from_slice(&body);
    out
}

#[test]
fn parse_mo_reads_pairs() {
    let mo = build_mo(&[
        ("Hello", "こんにちは"),
        ("peer {0} is reachable at {1}", "ピア {0} は {1} で到達可能です"),
    ]);
    let map = parse_mo(&mo).expect("parse");
    assert_eq!(map.get("Hello").map(String::as_str), Some("こんにちは"));
    assert_eq!(
        map.get("peer {0} is reachable at {1}").map(String::as_str),
        Some("ピア {0} は {1} で到達可能です")
    );
    assert_eq!(map.len(), 2);
}

#[test]
fn parse_mo_rejects_garbage() {
    assert!(parse_mo(&[]).is_none());
    assert!(parse_mo(&[0u8; 10]).is_none());
}

#[test]
fn broken_utf8_in_a_catalog_is_replaced() {
    let mut mo = build_mo(&[("Hi", "ab")]);
    let at = mo.len() - 3;
    mo[at] = 0xff;
    let map = parse_mo(&mo).expect("parse");
    assert_eq!(map.get("Hi").map(String::as_str), Some("\u{fffd}b"));
}

#[test]
fn a_string_outside_the_file_is_refused() {
    let mut mo = build_mo(&[("Hi", "ab")]);
    mo[28] = 200;
    assert!(parse_mo(&mo).is_none());
}

#[test]
fn locale_dir_override_wins_unconditionally() {
    let dirs = candidates(true, true);
    assert_eq!(dirs.first().map(|p| p.base), Some(Base::LocaleOverride));
    assert_eq!(dirs.first().map(|p| p.parts.len()), Some(0));
    assert!(candidates(false, true).iter().all(|p| p.base != Base::LocaleOverride));
}

#[test]
fn catalogs_lie_under_their_language() {
    let p = mo_path(Location::at(Base::LocaleOverride), "ja_JP");
    assert_eq!(p.parts, strings(&["ja_JP", "LC_MESSAGES", "link-p2p.mo"]));
}

fn installed() -> Vec<CatalogFile> {
    ["ja_JP", "es_ES", "zh_CN"]
        .iter()
        .map(|l| CatalogFile {
            dir: l.to_string(),
            bytes: Some(build_mo(&[("error", l)])),
        })
        .collect()
}

#[test]
fn resolve_lang_prefers_language_and_ignores_unsupported() {
    let files = installed();
    let pick = |language: Option<&str>, lang: Option<&str>| {
        let vars = vec![
            language.map(str::to_string),
            None,
            None,
            lang.map(str::to_string),
        ];
        let setting = env_lang(&vars);
        let prefs = language_prefs(&setting, Vec::new());
        resolve_lang(&prefs, &files)
    };
    assert_eq!(pick(Some("es_ES"), Some("ja_JP.UTF-8")), Some("es_ES"));
    assert_eq!(pick(Some("fr_FR:zh_CN"), Some("ja_JP.UTF-8")), Some("zh_CN"));
    assert_eq!(pick(None, Some("C")), None);
    assert_eq!(pick(None, Some("ja_JP.UTF-8")), Some("ja_JP"));
}

#[test]
fn the_chosen_catalog_is_loaded() {
    let files = installed();
    let mut catalog = init(&strings(&["fr_FR", "zh_CN"]), &files);
    assert_eq!(lookup(&catalog, "error"), "zh_CN");
    assert_eq!(lookup(&catalog, "warning"), "warning");
    reset_catalog(&mut catalog);
    assert_eq!(lookup(&catalog, "error"), "error");
    assert_eq!(init(&strings(&["fr_FR"]), &files).len(), 0);
}

#[test]
fn translated_templates_are_filled() {
    let mut catalog = Catalog::english();
    catalog.insert("{0} of {1}".to_string(), "{1}: {0}".to_string());
    assert_eq!(tr_fmt(&catalog, "{0} of {1}", &strings(&["a", "b"])), "b: a");
    assert_eq!(say1(&catalog, "just {0}", "a".to_string()), "just a");
    assert_eq!(
        say2(&catalog, "{0} of {1}", "{1}".to_string(), "b".to_string()),
        "b: {1}"
    );
    assert_eq!(
        say3(&catalog, "{0}{1}{2}", "a".to_string(), "b".to_string(), "c".to_string()),
        "abc"
    );
}
