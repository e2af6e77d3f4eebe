use scrying::argparse::{is_socks5, resolve_proxies, Mode};
use scrying::argparse::Mode::{Auto, Rdp, Web};
use std::str::FromStr;

#[test]
fn mode_filter() {
    let auto = Auto;
    let rdp = Rdp;
    let web = Web;

    assert!(auto.selected(Auto));
    assert!(auto.selected(Rdp));
    assert!(auto.selected(Web));

    assert!(rdp.selected(Auto));
    assert!(rdp.selected(Rdp));
    assert!(!rdp.selected(Web));

    assert!(web.selected(Auto));
    assert!(!web.selected(Rdp));
    assert!(web.selected(Web));
}

#[test]
fn mode_filter_all_pairs() {
    let all = [Mode::Auto, Mode::Web, Mode::Rdp, Mode::Vnc];
    for x in all {
        assert!(Mode::Auto.selected(x));
        assert!(x.selected(Mode::Auto));
        assert!(x.selected(x));
        for y in all {
            if x != Mode::Auto && y != Mode::Auto && x != y {
                assert!(!x.selected(y));
            }
        }
    }
}

#[test]
fn mode_from_str_and_default() {
    assert_eq!(Mode::from_str("web"), Ok(Mode::Web));
    assert_eq!(Mode::from_str("rdp"), Ok(Mode::Rdp));
    assert_eq!(Mode::from_str("vnc"), Ok(Mode::Vnc));
    assert_eq!(Mode::from_str("auto"), Ok(Mode::Auto));
    assert!(Mode::from_str("ftp").is_err());
    assert!(Mode::from_str("").is_err());
    assert_eq!(Mode::default(), Mode::Auto);
}

#[test]
fn socks5_proxy_check() {
    assert!(is_socks5("socks5://127.0.0.1:1080").is_ok());
    assert!(is_socks5("socks5://").is_ok());
    assert!(is_socks5("http://127.0.0.1:8080").is_err());
    assert!(is_socks5("socks5:/").is_err());
    assert!(is_socks5("").is_err());
    assert_eq!(
        is_socks5("http://proxy:3128"),
        Err("Global or RDP proxy must be a socks5:// URI".to_string())
    );
}

#[test]
fn proxy_override() {
    let blanket = Some("socks5://a:1".to_string());
    let (web, rdp) = resolve_proxies(blanket.clone(), None, Some("socks5://b:2".to_string()));
    assert_eq!(web, blanket);
    assert_eq!(rdp, Some("socks5://b:2".to_string()));
    let (web, rdp) = resolve_proxies(None, None, None);
    assert_eq!(web, None);
    assert_eq!(rdp, None);
}
