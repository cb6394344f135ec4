use iroh::SecretKey;
use link_p2p::contacts::{
    add_contact, complete_peer_tokens, complete_tun_call_args, contact_lines, contacts_path,
    encode_short_code, hint_save_contact, hint_share_identity, identity_code, machine_identity, name_for_id,
    no_such_contact, parse_endpoint_token, resolve, token_from_parsed, AddrHint, Contact,
    ContactBook, PeerError,
};
use link_p2p::crockford::{decode_crockford, encode_crockford};
use link_p2p::endpoint::EndpointId;
use link_p2p::i18n::Catalog;
use link_p2p::net::{IpAddr, Ipv4Addr, SocketAddr};
use link_p2p::phone_ring::{is_known_contact, match_peer_token, resolve_peer_token};

fn id_of(seed: u8) -> EndpointId {
    EndpointId { bytes: *SecretKey::from_bytes(&[seed; 32]).public().as_bytes() }
}

fn contact(id: &str) -> Contact {
    Contact { id: id.to_string(), relays: Vec::new(), addrs: Vec::new() }
}

fn book(entries: &[(&str, &str)]) -> ContactBook {
    let mut b = ContactBook::new();
    for (name, id) in entries {
        b.insert(name.to_string(), contact(id));
    }
    b
}

#[test]
fn complete_peer_tokens_prefix_match() {
    let b = book(&[("alice", &"aa".repeat(32)), ("bob", &"bb".repeat(32))]);
    let names: Vec<_> = complete_peer_tokens(&b, "al").into_iter().map(|c| c.value).collect();
    assert_eq!(names, vec!["alice"]);
    let call_kw: Vec<_> = complete_tun_call_args(&b, "acc").into_iter().map(|c| c.value).collect();
    assert!(call_kw.iter().any(|s| s == "accept"));
}

#[test]
fn name_for_id_finds_saved_contact() {
    let id = id_of(3);
    let b = book(&[("alice", &id.to_text())]);
    assert_eq!(name_for_id(&b, &id).as_deref(), Some("alice"));
    let other = id_of(4);
    assert!(name_for_id(&b, &other).is_none());
}

#[test]
fn short_code_round_trip() {
    let id = id_of(7);
    let code = encode_short_code(&id);
    assert!(code.contains('-'));
    let back = parse_endpoint_token(&code).unwrap();
    assert_eq!(back.bytes, id.bytes);
    let compact: String = code.chars().filter(|c| *c != '-').collect();
    assert_eq!(parse_endpoint_token(&compact).unwrap().bytes, id.bytes);
    assert_eq!(parse_endpoint_token(&id.to_text()).unwrap().bytes, id.bytes);
}

#[test]
fn short_code_check_digit_catches_typo() {
    let id = id_of(9);
    let code = encode_short_code(&id);
    let mut chars: Vec<char> = code.chars().collect();
    let idx = chars.iter().position(|&c| c != '-' && c.is_ascii_alphanumeric()).unwrap();
    chars[idx] = if chars[idx] == '0' { '1' } else { '0' };
    let bad: String = chars.into_iter().collect();
    let err = parse_endpoint_token(&bad).unwrap_err().message(&Catalog::english());
    assert!(err.contains("check digit"), "unexpected err: {err}");
}

#[test]
fn short_code_legacy_without_check_still_parses() {
    let id = id_of(3);
    let legacy = encode_crockford(&id.bytes);
    assert_eq!(legacy.len(), 52);
    assert_eq!(parse_endpoint_token(&legacy).unwrap().bytes, id.bytes);
}

#[test]
fn ids_are_shown_as_iroh_shows_them() {
    let key = SecretKey::from_bytes(&[7; 32]).public();
    let id = id_of(7);
    assert_eq!(id.to_text(), key.to_string());
    assert_eq!(id.short_text(), key.fmt_short().to_string());
    assert!(id.same(&id_of(7)));
    assert!(!id.same(&id_of(8)));
}

#[test]
fn crockford_forgives_lookalikes() {
    let text = encode_crockford(&[0x12, 0x34, 0x56, 0x78, 0x9a]);
    assert_eq!(text.len(), 8);
    let low: Vec<char> = text.to_lowercase().chars().collect();
    assert_eq!(decode_crockford(&low, low.len()).unwrap(), vec![0x12, 0x34, 0x56, 0x78, 0x9a]);
    let bad: Vec<char> = "U!".chars().collect();
    assert!(decode_crockford(&bad, 2).is_none());
}

#[test]
fn a_text_that_is_no_peer_is_named() {
    let catalog = Catalog::english();
    let e = parse_endpoint_token("nobody").unwrap_err();
    assert!(matches!(e, PeerError::NotAPeer(_)));
    assert!(e.message(&catalog).contains("'nobody'"));
    let e = parse_endpoint_token(&"*".repeat(53)).unwrap_err();
    assert!(matches!(e, PeerError::InvalidSymbol));
    let e = token_from_parsed("nobody", None).unwrap_err();
    assert!(matches!(e, PeerError::NotAPeer(_)));
    let id = id_of(1);
    assert_eq!(token_from_parsed("anything", Some(id)).unwrap().bytes, id.bytes);
}

#[test]
fn names_come_before_ids() {
    let id = id_of(3);
    let b = book(&[("Alice", &id.to_text())]);
    assert_eq!(resolve(&b, " Alice ").unwrap().id.bytes, id.bytes);
    let p = resolve(&b, "aLICE").unwrap();
    assert_eq!(p.name.as_deref(), Some("Alice"));
    let other = id_of(4);
    let p = resolve(&b, &other.to_text()).unwrap();
    assert_eq!(p.id.bytes, other.bytes);
    assert!(p.name.is_none());
    assert!(resolve(&b, "carol").is_err());
}

#[test]
fn broken_contacts_are_reported() {
    let catalog = Catalog::english();
    let b = book(&[("x", "zz")]);
    let e = resolve(&b, "x").unwrap_err();
    assert!(matches!(e, PeerError::ContactId(..)));
    assert_eq!(e.message(&catalog), "contact has invalid EndpointId 'zz'");
    assert_eq!(
        e.error(&catalog).report(),
        "contact has invalid EndpointId 'zz': invalid length"
    );
    let addr = SocketAddr { ip: IpAddr::V4(Ipv4Addr::new(10, 0, 0, 1)), port: 7 };
    let mut b = ContactBook::new();
    b.insert(
        "y".to_string(),
        Contact {
            id: id_of(3).to_text(),
            relays: vec!["https://r".to_string()],
            addrs: vec![
                AddrHint { text: "10.0.0.1:7".to_string(), addr: Ok(addr) },
                AddrHint { text: "oops".to_string(), addr: Err("invalid socket address syntax".to_string()) },
            ],
        },
    );
    let e = resolve(&b, "y").unwrap_err();
    assert_eq!(
        e.error(&catalog).report(),
        "contact has invalid address 'oops': invalid socket address syntax"
    );
}

#[test]
fn contacts_are_added_listed_and_removed() {
    let id = id_of(5);
    let mut b = ContactBook::new();
    assert!(add_contact(&mut b, "zed".to_string(), "nonsense").is_err());
    assert_eq!(b.len(), 0);
    let got = add_contact(&mut b, "zed".to_string(), &encode_short_code(&id)).unwrap();
    assert_eq!(got.bytes, id.bytes);
    add_contact(&mut b, "amy".to_string(), &id_of(6).to_text()).unwrap();
    assert_eq!(
        contact_lines(&b),
        vec![format!("amy\t{}", id_of(6).to_text()), format!("zed\t{}", id.to_text())]
    );
    assert_eq!(b.name_at(0), "amy");
    assert_eq!(b.get("zed").unwrap().id, id.to_text());
    assert_eq!(resolve(&b, "zed").unwrap().id.bytes, id.bytes);
    assert!(b.remove("zed"));
    assert!(!b.remove("zed"));
    assert_eq!(no_such_contact(&Catalog::english(), "zed"), "no contact named 'zed'");
}

#[test]
fn identity_lines_are_for_scripts() {
    let secret = [7u8; 32];
    let (id, a, b) = identity_code(&secret);
    assert_eq!(id.bytes, id_of(7).bytes);
    assert_eq!(a, format!("ENDPOINT_ID={}", id.to_text()));
    assert_eq!(b, format!("SHORT_CODE={}", encode_short_code(&id)));
    assert_eq!(machine_identity(&id), (a, b));
}

#[test]
fn strangers_are_worth_a_hint() {
    let catalog = Catalog::english();
    let id = id_of(7);
    let b = book(&[("alice", &id.to_text())]);
    let known = resolve(&b, "alice").unwrap();
    assert!(hint_save_contact(&catalog, &known).is_none());
    let stranger = resolve(&ContactBook::new(), &id.to_text()).unwrap();
    assert!(hint_save_contact(&catalog, &stranger).unwrap().contains(&encode_short_code(&id)));
}

#[test]
fn the_book_lies_in_the_config_directory() {
    let p = contacts_path(false, true);
    assert_eq!(p.parts, vec![".config".to_string(), "link-p2p".to_string(), "contacts.toml".to_string()]);
}

#[test]
fn ringing_peers_are_matched_by_id_code_or_name() {
    let id = id_of(7);
    let b = book(&[("Alice", &id.to_text())]);
    assert!(is_known_contact(&b, &id));
    assert!(!is_known_contact(&b, &id_of(8)));
    assert!(match_peer_token(&b, "alice", &id));
    assert!(match_peer_token(&b, &id.to_text().to_uppercase(), &id));
    assert!(match_peer_token(&b, &encode_short_code(&id), &id));
    assert!(!match_peer_token(&b, &encode_short_code(&id), &id_of(8)));
    assert!(!match_peer_token(&b, "bob", &id));
    assert_eq!(resolve_peer_token(&b, "alice").unwrap().bytes, id.bytes);
}

#[test]
fn codes_are_offered_for_sharing() {
    let id = EndpointId { bytes: *SecretKey::from_bytes(&[5; 32]).public().as_bytes() };
    let lines = hint_share_identity(&Catalog::english(), &id);
    assert_eq!(lines.len(), 2);
    assert!(lines[0].text.starts_with("give the other peer your SHORT_CODE"));
    assert_eq!((lines[1].indent, lines[1].text.clone()), (2, encode_short_code(&id)));
}

#[test]
fn short_codes_may_be_typed_carelessly() {
    let id = id_of(7);
    let code = encode_short_code(&id);
    let loose: String = code
        .to_lowercase()
        .chars()
        .map(|c| match c {
            '1' => 'l',
            '0' => 'O',
            '-' => ' ',
            other => other,
        })
        .collect();
    assert_eq!(parse_endpoint_token(&format!("  {loose}\n")).unwrap().bytes, id.bytes);
    let with_i: String = code.replace('1', "I").replace('0', "o");
    assert_eq!(parse_endpoint_token(&with_i).unwrap().bytes, id.bytes);
}

#[test]
fn every_other_check_symbol_is_refused() {
    let id = id_of(7);
    let code: String = encode_short_code(&id).chars().filter(|c| *c != '-').collect();
    let right = code.chars().last().unwrap();
    let mut refused = 0;
    for c in "0123456789ABCDEFGHJKMNPQRSTVWXYZ".chars().filter(|c| *c != right) {
        let typed = format!("{}{c}", &code[..52]);
        assert!(matches!(parse_endpoint_token(&typed), Err(PeerError::CheckMismatch)));
        refused += 1;
    }
    assert_eq!(refused, 31);
}

#[test]
fn symbols_are_ascii() {
    let dotted = vec!['\u{131}', '\u{130}'];
    assert!(decode_crockford(&dotted, 2).is_none());
    let high: Vec<char> = "\u{1f630}\u{141}".chars().collect();
    assert!(decode_crockford(&high, 2).is_none());
}
