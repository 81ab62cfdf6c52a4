use blindbitd::{
    begin, bytes_contain, decimal_string, dotted_quad_string, is_ready_line, line_from_read,
    render_config, server_url, signal_pid, socket_string, step, Action, Conf, Error, Event, Phase,
    RpcTarget, Storage, DATADIR_FLAG, DEFAULT_IP, READY_MARKER,
};

fn rpc() -> RpcTarget {
    RpcTarget {
        ip: [127, 0, 0, 1],
        port: 18443,
        cookie_path: "/tmp/bitcoind/regtest/.cookie".to_string(),
    }
}

fn io_error() -> Error {
    Error::Io(std::io::Error::new(std::io::ErrorKind::AddrInUse, "no free port"))
}

#[test]
fn storage_values_match_server_flags() {
    assert_eq!(Storage::FullBasic.values(), (1, 0, 0));
    assert_eq!(Storage::DustFilter.values(), (0, 1, 0));
    assert_eq!(Storage::DustFilterCutThrough.values(), (0, 0, 1));
    let t: (u8, u8, u8) = (&Storage::DustFilter).into();
    assert_eq!(t, (0, 1, 0));
}

#[test]
fn storage_flags_are_exclusive() {
    let all = [Storage::FullBasic, Storage::DustFilter, Storage::DustFilterCutThrough];
    for s in all.iter() {
        let (a, b, c) = s.values();
        assert_eq!(a + b + c, 1);
    }
    for x in all.iter() {
        for y in all.iter() {
            assert_eq!(x.values() == y.values(), x == y);
        }
    }
}

#[test]
fn default_conf_uses_cut_through_with_utxo_tracking() {
    let conf = Conf::default();
    assert!(conf.args.is_empty());
    assert_eq!(conf.ip, None);
    assert_eq!(conf.port, None);
    assert_eq!(conf.binary, None);
    assert_eq!(conf.storage, Storage::DustFilterCutThrough);
    assert!(!conf.tweaks_only);
}

#[test]
fn with_storage_changes_only_storage() {
    let conf = Conf::with_storage(Storage::FullBasic);
    let mut expected = Conf::default();
    expected.storage = Storage::FullBasic;
    assert_eq!(conf, expected);
    assert!(!conf.tweaks_only);
}

#[test]
fn tweaks_only_with_sets_mode_and_storage() {
    let conf = Conf::tweaks_only_with(Storage::DustFilter);
    let mut expected = Conf::default();
    expected.storage = Storage::DustFilter;
    expected.tweaks_only = true;
    assert_eq!(conf, expected);
    let conf = Conf::tweaks_only_with(Storage::FullBasic);
    assert!(conf.tweaks_only);
    assert_eq!(conf.storage, Storage::FullBasic);
}

#[test]
fn constructed_confs_are_consistent() {
    let confs = [
        Conf::default(),
        Conf::with_storage(Storage::FullBasic),
        Conf::with_storage(Storage::DustFilter),
        Conf::with_storage(Storage::DustFilterCutThrough),
        Conf::tweaks_only_with(Storage::FullBasic),
        Conf::tweaks_only_with(Storage::DustFilter),
    ];
    for c in confs.iter() {
        assert!(!(c.tweaks_only && c.storage == Storage::DustFilterCutThrough));
    }
}

#[test]
fn decimal_rendering() {
    assert_eq!(decimal_string(0), "0");
    assert_eq!(decimal_string(7), "7");
    assert_eq!(decimal_string(10), "10");
    assert_eq!(decimal_string(405), "405");
    assert_eq!(decimal_string(65535), "65535");
    assert_eq!(decimal_string(u32::MAX), "4294967295");
}

#[test]
fn decimal_reads_back() {
    for n in [0u32, 1, 9, 10, 99, 100, 12345, 1_000_000, u32::MAX] {
        let s = decimal_string(n);
        assert!(s.chars().all(|c| c.is_ascii_digit()));
        assert!(s.len() == 1 || !s.starts_with('0'));
        assert_eq!(s.parse::<u32>().unwrap(), n);
    }
}

#[test]
fn socket_and_url_rendering() {
    assert_eq!(socket_string("127.0.0.1", 8000), "127.0.0.1:8000");
    assert_eq!(dotted_quad_string([10, 0, 255, 1]), "10.0.255.1");
    assert_eq!(server_url("127.0.0.1", 3000), "http://127.0.0.1:3000");
    assert_eq!(server_url("0.0.0.0", 0), "http://0.0.0.0:0");
}

const DEFAULT_CONFIG: &str = "host = \"127.0.0.1:8000\"\n\
chain = \"regtest\"\n\
rpc_endpoint = \"http://127.0.0.1:18443\"\n\
cookie_path = \"/tmp/bitcoind/regtest/.cookie\"\n\
sync_start_height = 1\n\
max_parallel_tweak_computations = 4\n\
max_parallel_requests = 4\n\
tweaks_only = 0\n\
tweaks_full_basic = 0\n\
tweaks_full_with_dust_filter = 0\n\
tweaks_cut_through_with_dust_filter = 1\n";

#[test]
fn config_for_default_conf() {
    let conf = Conf::default();
    let text = render_config("127.0.0.1", 8000, &rpc(), conf.tweaks_only, conf.storage);
    assert_eq!(text, DEFAULT_CONFIG);
}

#[test]
fn config_for_full_basic_tweaks_only() {
    let conf = Conf::tweaks_only_with(Storage::FullBasic);
    let text = render_config("10.1.2.3", 65535, &rpc(), conf.tweaks_only, conf.storage);
    assert!(text.starts_with("host = \"10.1.2.3:65535\"\n"));
    assert!(text.ends_with(
        "tweaks_only = 1\ntweaks_full_basic = 1\ntweaks_full_with_dust_filter = 0\ntweaks_cut_through_with_dust_filter = 0\n"
    ));
}

#[test]
fn config_tells_modes_apart() {
    let modes = [
        (false, Storage::FullBasic),
        (false, Storage::DustFilter),
        (false, Storage::DustFilterCutThrough),
        (true, Storage::FullBasic),
        (true, Storage::DustFilter),
        (true, Storage::DustFilterCutThrough),
    ];
    for a in modes.iter() {
        for b in modes.iter() {
            let ta = render_config("127.0.0.1", 1, &rpc(), a.0, a.1);
            let tb = render_config("127.0.0.1", 1, &rpc(), b.0, b.1);
            assert_eq!(ta == tb, a == b);
        }
    }
}

#[test]
fn url_names_configured_host() {
    let text = render_config("192.168.0.7", 4242, &rpc(), false, Storage::DustFilter);
    let url = server_url("192.168.0.7", 4242);
    let host = url.strip_prefix("http://").unwrap();
    assert!(text.starts_with(&format!("host = \"{}\"\n", host)));
}

#[test]
fn listen_ip_defaults_to_loopback() {
    let mut conf = Conf::default();
    assert_eq!(conf.listen_ip(), DEFAULT_IP);
    assert_eq!(conf.listen_ip(), "127.0.0.1");
    conf.ip = Some("0.0.0.0".to_string());
    assert_eq!(conf.listen_ip(), "0.0.0.0");
}

#[test]
fn listen_port_prefers_configured_port() {
    let mut conf = Conf::default();
    assert_eq!(conf.listen_port(Ok(5000)).unwrap(), 5000);
    conf.port = Some(3002);
    assert_eq!(conf.listen_port(Ok(5000)).unwrap(), 3002);
}

#[test]
fn listen_port_fails_when_lookup_fails() {
    let mut conf = Conf::default();
    assert!(matches!(conf.listen_port(Err(io_error())), Err(Error::Io(_))));
    conf.port = Some(3002);
    assert!(matches!(conf.listen_port(Err(io_error())), Err(Error::Io(_))));
}

#[test]
fn binary_path_prefers_configured_binary() {
    let mut conf = Conf::default();
    assert_eq!(conf.binary_path(Some("/opt/bundled".to_string())), Some("/opt/bundled".to_string()));
    assert_eq!(conf.binary_path(None), None);
    conf.binary = Some("/usr/bin/oracle".to_string());
    assert_eq!(conf.binary_path(Some("/opt/bundled".to_string())), Some("/usr/bin/oracle".to_string()));
    assert_eq!(conf.binary_path(None), Some("/usr/bin/oracle".to_string()));
}

#[test]
fn daemon_args_append_datadir() {
    let mut conf = Conf::default();
    assert_eq!(conf.daemon_args("/tmp/work"), vec!["--datadir", "/tmp/work"]);
    conf.args = vec!["-v", "--log=debug"];
    assert_eq!(conf.daemon_args("/tmp/work"), vec!["-v", "--log=debug", DATADIR_FLAG, "/tmp/work"]);
}

#[test]
fn byte_search() {
    assert!(bytes_contain(b"hello world", b"o w"));
    assert!(bytes_contain(b"hello", b""));
    assert!(bytes_contain(b"abc", b"abc"));
    assert!(!bytes_contain(b"ab", b"abc"));
    assert!(!bytes_contain(b"hello world", b"worlds"));
    assert!(bytes_contain(b"aaab", b"aab"));
}

#[test]
fn ready_line_detection() {
    assert!(is_ready_line("[GIN-debug] Listening and serving HTTP on 127.0.0.1:8000\n"));
    assert!(is_ready_line(READY_MARKER));
    assert!(!is_ready_line("Listening and serving HTTPS"[..25].as_ref()));
    assert!(!is_ready_line("syncing block 5\n"));
    assert!(!is_ready_line("listening and serving http"));
}

#[test]
fn lines_from_reads() {
    assert_eq!(line_from_read(Vec::new()), None);
    assert_eq!(line_from_read(b"abc\n".to_vec()), Some("abc\n".to_string()));
    assert_eq!(line_from_read(b"tail without newline".to_vec()), Some("tail without newline".to_string()));
    assert_eq!(line_from_read(vec![0xff, 0xfe, b'\n']), None);
    assert_eq!(line_from_read("héllo\n".as_bytes().to_vec()), Some("héllo\n".to_string()));
}

#[test]
fn signal_pids() {
    assert_eq!(signal_pid(0), 0);
    assert_eq!(signal_pid(1234), 1234);
    assert_eq!(signal_pid(0x7fff_ffff), i32::MAX);
    assert_eq!(signal_pid(0x8000_0000), i32::MIN);
    assert_eq!(signal_pid(u32::MAX), -1);
}

#[test]
fn startup_without_attempts_gives_up() {
    assert_eq!(begin(0), (Phase::Exhausted, Action::GiveUp));
    assert_eq!(begin(5), (Phase::Spawning { retries: 4 }, Action::Spawn));
    assert_eq!(begin(1), (Phase::Spawning { retries: 0 }, Action::Spawn));
}

#[test]
fn default_conf_allows_five_attempts() {
    assert_eq!(Conf::default().attempts(), 5);
    assert_eq!(Conf::with_storage(Storage::FullBasic).attempts(), 5);
    assert_eq!(Conf::tweaks_only_with(Storage::DustFilter).attempts(), 5);
}

#[test]
fn startup_accepts_on_ready_line() {
    let (phase, action) = begin(Conf::default().attempts());
    assert_eq!(action, Action::Spawn);
    let (phase, action) = step(phase, &Event::Spawned);
    assert_eq!((phase, action), (Phase::Waiting { retries: 4 }, Action::Poll));
    let (phase, action) = step(phase, &Event::Quiet);
    assert_eq!((phase, action), (Phase::Waiting { retries: 4 }, Action::Poll));
    let (phase, action) = step(phase, &Event::Log("starting oracle\n".to_string()));
    assert_eq!((phase, action), (Phase::Waiting { retries: 4 }, Action::SleepThenPoll));
    let (phase, action) =
        step(phase, &Event::Log("Listening and serving HTTP on 127.0.0.1:8000\n".to_string()));
    assert_eq!((phase, action), (Phase::Up, Action::Accept));
    assert_eq!(step(phase, &Event::Deadline), (Phase::Up, Action::Halt));
}

#[test]
fn startup_retries_after_deadline() {
    let (phase, _) = step(Phase::Spawning { retries: 2 }, &Event::Spawned);
    assert_eq!(
        step(phase, &Event::Deadline),
        (Phase::Spawning { retries: 1 }, Action::KillAndRetry)
    );
    let (phase, _) = step(Phase::Spawning { retries: 0 }, &Event::Spawned);
    assert_eq!(step(phase, &Event::Deadline), (Phase::Failed, Action::KillAndFail));
    assert_eq!(step(Phase::Failed, &Event::Spawned), (Phase::Failed, Action::Halt));
}

#[test]
fn silent_processes_use_every_attempt() {
    for attempts in 1u8..=6 {
        let (mut phase, mut action) = begin(attempts);
        let mut spawned = 0;
        loop {
            match action {
                Action::Spawn | Action::KillAndRetry => {
                    spawned += 1;
                    let next = step(phase, &Event::Spawned);
                    phase = next.0;
                    action = next.1;
                }
                Action::Poll => {
                    let next = step(phase, &Event::Deadline);
                    phase = next.0;
                    action = next.1;
                }
                _ => break,
            }
        }
        assert_eq!(spawned, attempts as u32);
        assert_eq!((phase, action), (Phase::Failed, Action::KillAndFail));
    }
}

#[test]
fn startup_aborts_on_spawn_error() {
    assert_eq!(
        step(Phase::Spawning { retries: 3 }, &Event::SpawnFailed),
        (Phase::Failed, Action::Abort)
    );
}

#[test]
fn startup_never_exceeds_attempts() {
    // whatever is observed, the spawns of a start-up stay within its attempts
    let events = vec![
        Event::Spawned,
        Event::SpawnFailed,
        Event::Deadline,
        Event::Quiet,
        Event::Log(READY_MARKER.to_string()),
        Event::Log("noise".to_string()),
    ];
    for attempts in 0u8..=3 {
        for pattern in 0usize..(6 * 6 * 6 * 6) {
            let (mut phase, action) = begin(attempts);
            let mut spawned: u32 = if action == Action::Spawn { 1 } else { 0 };
            let mut code = pattern;
            for _ in 0..4 {
                let e = &events[code % 6];
                code /= 6;
                let (next, act) = step(phase, e);
                if act == Action::Spawn || act == Action::KillAndRetry {
                    spawned += 1;
                }
                phase = next;
            }
            assert!(spawned <= attempts as u32);
        }
    }
}

#[test]
fn config_for_full_basic_storage() {
    let conf = Conf::with_storage(Storage::FullBasic);
    let text = render_config("127.0.0.1", 8000, &rpc(), conf.tweaks_only, conf.storage);
    assert!(text.ends_with(
        "tweaks_only = 0\ntweaks_full_basic = 1\ntweaks_full_with_dust_filter = 0\ntweaks_cut_through_with_dust_filter = 0\n"
    ));
}

#[test]
fn conf_config_file_uses_its_settings() {
    let conf = Conf::default();
    assert_eq!(conf.config_file("127.0.0.1", 8000, &rpc()), DEFAULT_CONFIG);
    let conf = Conf::tweaks_only_with(Storage::FullBasic);
    assert_eq!(
        conf.config_file("127.0.0.1", 8000, &rpc()),
        render_config("127.0.0.1", 8000, &rpc(), true, Storage::FullBasic)
    );
}

#[test]
fn lines_read_in_turn_give_back_the_input() {
    let input = "first line\nsecond é line\n\nlast without newline".as_bytes();
    let mut pieces: Vec<Vec<u8>> = Vec::new();
    let mut start = 0;
    for (i, b) in input.iter().enumerate() {
        if *b == b'\n' {
            pieces.push(input[start..=i].to_vec());
            start = i + 1;
        }
    }
    if start < input.len() {
        pieces.push(input[start..].to_vec());
    }
    let lines: Vec<String> = pieces.into_iter().map(|p| line_from_read(p).unwrap()).collect();
    assert_eq!(lines.len(), 4);
    assert_eq!(lines.concat().as_bytes(), input);
    assert_eq!(line_from_read(Vec::new()), None);
}
