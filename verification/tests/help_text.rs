use link_p2p::cli_help::{
    about, arg_help, find_message, help_flag, help_rows, long_about, platform_after_help,
    version_flag, HelpSystem, Slot, Wanted,
};
use link_p2p::helptext::{brief_help, char_width, hard_wrap_help, is_soft_break_char, split_sentences, wrap_clause};
use link_p2p::i18n::Catalog;

#[test]
fn brief_takes_first_sentence() {
    assert_eq!(brief_help("One sentence. Two sentence."), "One sentence.");
    assert_eq!(
        brief_help("路径不存在时会新建。默认写到 XDG 配置目录。"),
        "路径不存在时会新建。"
    );
}

#[test]
fn brief_skips_version_and_eg() {
    assert_eq!(
        brief_help("Uses iroh 1.0 over QUIC. See README."),
        "Uses iroh 1.0 over QUIC."
    );
    assert_eq!(
        brief_help("Relay URL, e.g. http://127.0.0.1:3340. Skips discovery."),
        "Relay URL, e.g. http://127.0.0.1:3340."
    );
}

#[test]
fn hard_wrap_breaks_on_sentences() {
    let out = hard_wrap_help(
        "QUIC max idle timeout in seconds (default 30). After this long without traffic the peer is declared dead and the connection re-dialed. Raise it for lossy / high-latency links so a brief outage doesn't tear the connection down.",
    );
    let lines: Vec<_> = out.lines().collect();
    assert!(lines.len() >= 3, "expected sentence breaks, got:\n{out}");
    assert!(lines[0].contains("default 30"));
    assert!(lines.iter().any(|l| l.contains("re-dialed") || l.contains("declared dead")));
    assert!(lines.iter().any(|l| l.contains("Raise it") || l.contains("lossy")));
    assert!(!out.contains('\r'));
}

#[test]
fn hard_wrap_chinese_sentences() {
    let out = hard_wrap_help(
        "QUIC 最大空闲超时（秒，默认 30）。超过此时间没有流量即判定对端已断开并重新拨号。在丢包/高延迟链路上调大，避免短暂中断就拆掉连接。",
    );
    let lines: Vec<_> = out.lines().collect();
    assert!(lines.len() >= 3, "got:\n{out}");
    assert!(lines[0].ends_with('。') || lines[0].contains("30"));
}

#[test]
fn wrapping_keeps_every_character() {
    let text = "First part, second part; and a third one that goes on for rather a long while. End.";
    let ink = |s: &str| s.chars().filter(|c| !c.is_whitespace()).collect::<String>();
    assert_eq!(ink(&hard_wrap_help(text)), ink(text));
}

#[test]
fn sentences_are_split_at_stops() {
    assert_eq!(split_sentences("One. Two. Three"), vec!["One.", "Two.", "Three"]);
}

#[test]
fn wide_characters_take_two_columns() {
    assert_eq!(char_width('a'), 1);
    assert_eq!(char_width('中'), 2);
    assert!(is_soft_break_char(' '));
    assert!(!is_soft_break_char('a'));
    for line in wrap_clause("one two three four five six seven eight nine ten", 20) {
        assert!(line.chars().map(char_width).sum::<usize>() <= 20);
    }
}

#[test]
fn every_option_has_a_short_and_a_long_help() {
    let catalog = Catalog::english();
    let rows = help_rows(true);
    assert_eq!(rows.len(), 130);
    for row in &rows {
        if let Slot::Arg(name) = row.slot {
            let (short, long) = arg_help(&catalog, &rows, row.path, name).unwrap();
            assert!(!short.is_empty());
            assert!(long.len() + 1 >= short.len());
        }
    }
    assert_eq!(help_rows(false).len(), 128);
}

#[test]
fn no_command_is_described_twice() {
    let rows = help_rows(true);
    for (i, a) in rows.iter().enumerate() {
        for b in rows.iter().skip(i + 1) {
            let same = match (a.slot, b.slot) {
                (Slot::About, Slot::About) => true,
                (Slot::LongAbout, Slot::LongAbout) => true,
                (Slot::Arg(x), Slot::Arg(y)) => x == y,
                _ => false,
            };
            assert!(!(same && a.path == b.path), "{} {:?}", a.path, a.slot);
        }
    }
}

#[test]
fn help_is_found_by_command_and_option() {
    let mut catalog = Catalog::english();
    let rows = help_rows(true);
    assert_eq!(
        about(&catalog, &rows, "tun ring").as_deref(),
        Some("List pending inbound phone-mode TUN calls.")
    );
    assert!(long_about(&catalog, &rows, "tun ring").is_none());
    assert!(long_about(&catalog, &rows, "tun up").unwrap().starts_with("Start the TUN mesh."));
    assert_eq!(
        arg_help(&catalog, &rows, "", "quiet").unwrap().0,
        "Quiet user-facing banners (errors still print)."
    );
    assert!(arg_help(&catalog, &rows, "serve", "quiet").is_none());
    assert!(find_message(&rows, "connect", Wanted::Arg("to")).unwrap().contains("stdin"));
    let elsewhere = help_rows(false);
    assert!(!find_message(&elsewhere, "connect", Wanted::Arg("to")).unwrap().contains("stdin"));
    assert!(find_message(&elsewhere, "man", Wanted::About).is_none());
    catalog.insert("Print help".to_string(), "Aide".to_string());
    assert_eq!(help_flag(&catalog).0, "Aide");
    assert_eq!(version_flag(&catalog), "Print version");
    assert!(platform_after_help(&catalog, HelpSystem::Unix).contains("connect --stdio, --to -, link-p2p man"));
    assert!(platform_after_help(&catalog, HelpSystem::Windows).contains("wintun.dll"));
    assert_eq!(
        platform_after_help(&catalog, HelpSystem::Other),
        "See README.md. TUN mode supports Linux, macOS, and Windows."
    );
}

#[test]
fn an_abbreviation_does_not_end_a_sentence() {
    let text = "Local address to listen on, e.g. 127.0.0.1:9090";
    assert_eq!(brief_help(text), text);
    assert_eq!(brief_help("The far side, i.e. the hub. More."), "The far side, i.e. the hub.");
    assert_eq!(split_sentences("The far side, i.e. the hub. More.").len(), 2);
}
