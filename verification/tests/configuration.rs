use universe::accounts::{
    lookup_by_email, registration, registration_body_problem, session_body_reply, session_reply, BodyProblem, Account, AccountData, Counter, LoginData, Registration,
};
use universe::launcher::{
    contains, elevation, handle_request, is_elevated, process_name, proxy_setting, redirect_uri, relaunch_parameters,
    snowflake_path, Elevation, Options, Server, State,
};
use universe::sniffer::{EncodedPacket, PacketMessage, Sniffer};
use universe::processor::Packet;

#[test]
fn login_data_carries_the_account() {
    let account = Account {
        id: "100000001".to_string(),
        email: "a@b.c".to_string(),
        username: "user".to_string(),
        password: String::new(),
        login_token: "tok".to_string(),
        session_token: "sess".to_string(),
    };
    let data = account.login_data();
    assert_eq!(data.account.uid, Some("100000001".to_string()));
    assert_eq!(data.account.token, Some("tok".to_string()));
    assert_eq!(data.account.email, "a@b.c");
    assert_eq!(data.account.country, "US");
    assert_eq!(data.account.area_code, "**");
    assert_eq!(data.account.is_email_verify, "0");
    assert_eq!(data.realname_operation, "NONE");
    assert!(!data.device_grant_required);
}

#[test]
fn defaults_of_login_data() {
    let d = LoginData::default();
    assert!(d.account.uid.is_none());
    assert!(d.account.token.is_none());
    assert!(!d.safe_mobile_required && !d.realperson_required);
    let a = AccountData::default();
    assert_eq!(a.name, "");
    assert_eq!(a.device_grant_ticket, "");
}

#[test]
fn counter_step() {
    let (c, id) = Counter::next_id_step(None, "accounts", 100_000_000);
    assert_eq!((c.id.as_str(), c.count, id), ("accounts", 100_000_001, 100_000_000));
    let (c, id) = Counter::next_id_step(Some(c), "accounts", 5);
    assert_eq!((c.count, id), (100_000_002, 100_000_001));
    let (c, id) = Counter::next_id_step(Some(c), "accounts", 5);
    assert_eq!((c.count, id), (100_000_003, 100_000_002));
}

#[test]
fn random_string_is_alphanumeric() {
    let s = universe::accounts::random_string(64);
    assert_eq!(s.len(), 64);
    assert!(s.chars().all(|c| c.is_ascii_alphanumeric()));
    assert_eq!(universe::accounts::random_string(0), "");
}

#[test]
fn server_address() {
    let s = Server { host: "example.org".to_string(), port: 443, encrypted: true };
    assert_eq!(s.address(), "https://example.org:443");
    let s = Server { host: "127.0.0.1".to_string(), port: 0, encrypted: false };
    assert_eq!(s.address(), "http://127.0.0.1:0");
    assert_eq!(redirect_uri(&s, "/a?b=c"), "http://127.0.0.1:0/a?b=c");
}

#[test]
fn launcher_defaults_and_updates() {
    let o = Options::default();
    assert_eq!(o.proxy.port, 8365);
    assert_eq!(o.proxy.urls.len(), 8);
    assert_eq!(o.genshin.proxy.port, 8080);
    let g = o.game_from_name("starrail").unwrap();
    assert!(g.path.ends_with("GenshinImpact.exe"));
    assert!(o.game_from_name("other").is_none());
    let o2 = o.set_game_path("genshin", "D:\\game.exe".to_string()).unwrap();
    assert_eq!(o2.genshin.path, "D:\\game.exe");
    assert_eq!(o2.starrail.path, o.starrail.path);
    // What is read back for the game is what was set.
    let g2 = o2.game_from_name("genshin").unwrap();
    assert_eq!(g2.path, "D:\\game.exe");
    assert_eq!(g2.proxy.address(), "http://127.0.0.1:8080");
    let o3 = o.set_server("starrail", "10.0.0.1".to_string(), 443, true).unwrap();
    assert_eq!(o3.starrail.proxy.address(), "https://10.0.0.1:443");
    assert_eq!(o3.genshin.proxy.address(), "http://127.0.0.1:8080");
    let g3 = o3.game_from_name("starrail").unwrap();
    assert_eq!(g3.proxy.address(), "https://10.0.0.1:443");
    assert_eq!(g3.path, o.starrail.path);
    assert!(o.set_server("x", String::new(), 1, false).is_none());
    let st = State::default();
    assert_eq!(st.selected_game, "genshin");
    assert!(!st.require_admin);
}

#[test]
fn intercepted_urls() {
    let urls = Options::default().proxy.urls;
    assert!(contains("https://sdk-os-static.mihoyo.com/combo", &urls));
    assert!(!contains("https://example.org/", &urls));
    assert!(contains("anything", &vec![String::new()]));
    assert!(!contains("anything", &vec![]));
}

#[test]
fn proxy_setting_text() {
    assert_eq!(proxy_setting(8365), "http=127.0.0.1:8365;https=127.0.0.1:8365");
}

#[test]
fn platform_facts() {
    assert!(!is_elevated());
    assert_eq!(snowflake_path(), "");
}

#[test]
fn sniffer_defaults_and_encoding() {
    assert_eq!(Sniffer::default_port(), 8080);
    assert_eq!(Sniffer::default().bind_port, 0);
    let p = Packet { id: 12, header: vec![1], data: vec![1, 2, 3], is_client: true };
    let e = EncodedPacket::from(p.clone());
    assert_eq!((e.time, e.source.as_str(), e.packet_id, e.packet_name.as_str(), e.length, e.data.as_str()), (0, "client", 12, "unknown", 3, "{}"));
    let m = PacketMessage::from_packet(Packet { is_client: false, ..p });
    assert_eq!((m.packet_id, m.data.source.as_str()), (12, "server"));
}

#[test]
fn process_name_is_the_last_path_segment() {
    assert_eq!(process_name(r"C:\Program Files\Genshin Impact\Genshin Impact game\GenshinImpact.exe"), "GenshinImpact.exe");
    assert_eq!(process_name("games/star rail/StarRail.exe"), "StarRail.exe");
    assert_eq!(process_name(r"mixed/dirs\Game.exe"), "Game.exe");
    assert_eq!(process_name("Game.exe"), "Game.exe");
    assert_eq!(process_name("dir/"), "");
    assert_eq!(process_name(""), "");
    assert_eq!(process_name("ゲーム/原神.exe"), "原神.exe");
}

#[test]
fn elevation_decision() {
    assert!(elevation(true, true, true) == Elevation::NotNeeded);
    assert!(elevation(false, false, false) == Elevation::NotNeeded);
    assert!(elevation(false, true, false) == Elevation::NeedsSudo);
    assert!(elevation(false, true, true) == Elevation::Relaunch);
}

#[test]
fn relaunch_parameters_skip_the_program() {
    let args = |v: &[&str]| v.iter().map(|s| s.to_string()).collect::<Vec<String>>();
    assert_eq!(relaunch_parameters(&args(&[])), "");
    assert_eq!(relaunch_parameters(&args(&["cultivation.exe"])), "");
    assert_eq!(relaunch_parameters(&args(&["cultivation.exe", "launch"])), "launch");
    assert_eq!(relaunch_parameters(&args(&["cultivation.exe", "launch", "genshin", "--custom"])), "launch genshin --custom");
}

#[test]
fn login_lookup_and_replies() {
    assert!(lookup_by_email("someone@example.org"));
    assert!(!lookup_by_email("someone"));
    assert!(lookup_by_email("ü@"));
    assert!(!lookup_by_email(""));

    let r = session_reply(None, true);
    assert_eq!((r.retcode, r.message.as_str()), (-201, "Game account cache information error"));
    assert!(r.data.is_none());
    let account = Account {
        id: "7".to_string(),
        email: "a@b.c".to_string(),
        username: "a".to_string(),
        password: String::new(),
        login_token: "tok".to_string(),
        session_token: String::new(),
    };
    let r = session_reply(Some(&account), false);
    assert_eq!((r.retcode, r.message.as_str()), (-201, "Incorrect or invalid password"));
    assert!(r.data.is_none());
    let r = session_reply(Some(&account), true);
    assert_eq!((r.retcode, r.message.as_str()), (0, "OK"));
    let d = r.data.unwrap();
    assert_eq!(d.account.uid.as_deref(), Some("7"));
    assert_eq!(d.account.token.as_deref(), Some("tok"));
    assert_eq!(d.account.email, "a@b.c");
}

#[test]
fn registration_decision() {
    assert!(registration(true, true) == Registration::UsernameTaken);
    assert!(registration(false, true) == Registration::EmailTaken);
    assert!(registration(false, false) == Registration::Create);
    assert_eq!(registration(true, false).reply(), (-2, "Account with username already exists.".to_string()));
    assert_eq!(registration(false, true).reply(), (-3, "Account with email already exists.".to_string()));
    assert_eq!(registration(false, false).reply(), (0, "Account created successfully.".to_string()));
}

#[test]
fn proxy_redirects_intercepted_requests() {
    let urls = Options::default().proxy.urls;
    let server = Server { host: "127.0.0.1".to_string(), port: 443, encrypted: true };
    assert_eq!(
        handle_request("GET", "https://sdk-os-static.mihoyo.com/combo/x?y=1", &urls, &server, "/combo/x?y=1"),
        Some("https://127.0.0.1:443/combo/x?y=1".to_string())
    );
    assert_eq!(handle_request("CONNECT", "sdk-os-static.mihoyo.com:443", &urls, &server, ""), None);
    assert_eq!(handle_request("GET", "https://example.org/", &urls, &server, "/"), None);
}

#[test]
fn unreadable_bodies_are_refused() {
    let r = session_body_reply(BodyProblem::Missing);
    assert_eq!((r.retcode, r.message.as_str()), (-202, "No body provided."));
    let r = session_body_reply(BodyProblem::InvalidJson);
    assert_eq!((r.retcode, r.message.as_str()), (-202, "Invalid JSON."));
    assert!(r.data.is_none());
    assert_eq!(registration_body_problem(BodyProblem::Missing).reply(), (-1, "No body provided.".to_string()));
    assert_eq!(registration_body_problem(BodyProblem::InvalidJson).reply(), (-1, "Invalid JSON.".to_string()));
}
