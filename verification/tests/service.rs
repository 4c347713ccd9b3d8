use xiu::endpoint::format_endpoint;
use xiu::service::{Task, Xiu};
use xiu::xiu_config::{
    HlsConfig, HttpFlvConfig, LogConfig, LogLevel, RtmpConfig, RtmpPullConfig, RtmpPushConfig,
    XiuConfig,
};

fn nothing() -> XiuConfig {
    XiuConfig { rtmp: None, httpflv: None, hls: None, log: None }
}

fn push(enabled: bool, address: &str, port: u16) -> RtmpPushConfig {
    RtmpPushConfig { enabled, address: address.to_string(), port }
}

#[test]
fn endpoints_are_host_colon_port() {
    assert_eq!(format_endpoint("0.0.0.0", 1935), "0.0.0.0:1935");
    assert_eq!(format_endpoint("example.org", 0), "example.org:0");
    assert_eq!(format_endpoint("h", 7), "h:7");
    assert_eq!(format_endpoint("h", 10), "h:10");
    assert_eq!(format_endpoint("h", 65535), "h:65535");
    assert_eq!(format_endpoint("", 4294967295), ":4294967295");
    assert_eq!(format_endpoint("::1", 1009), "::1:1009");
}

#[test]
fn default_ports() {
    let rtmp = RtmpConfig { enabled: true, port: None, pull: None, push: None };
    assert_eq!(rtmp.listen_port(), 1935);
    let rtmp = RtmpConfig { enabled: true, port: Some(19350), pull: None, push: None };
    assert_eq!(rtmp.listen_port(), 19350);
    assert_eq!(HttpFlvConfig { enabled: true, port: None }.listen_port(), 8081);
    assert_eq!(HttpFlvConfig { enabled: true, port: Some(80) }.listen_port(), 80);
}

#[test]
fn empty_configuration_starts_only_the_hub() {
    let startup = Xiu::new(nothing()).run();
    assert_eq!(startup.tasks, vec![Task::Hub]);
    assert!(!startup.hub.hls_enabled());
    assert!(!startup.hub.rtmp_push_enabled());
    assert!(!startup.hub.rtmp_pull_enabled());
}

#[test]
fn disabled_sections_start_nothing() {
    let config = XiuConfig {
        rtmp: Some(RtmpConfig {
            enabled: false,
            port: Some(1),
            pull: Some(RtmpPullConfig { enabled: true, address: "a".to_string(), port: 1 }),
            push: Some(vec![push(true, "b", 2)]),
        }),
        httpflv: Some(HttpFlvConfig { enabled: false, port: Some(3) }),
        hls: Some(HlsConfig { enabled: false, port: 4 }),
        log: Some(LogConfig { level: LogLevel::Debug }),
    };
    let startup = Xiu::new(config).run();
    assert_eq!(startup.tasks, vec![Task::Hub]);
    assert!(!startup.hub.hls_enabled());
    assert!(!startup.hub.rtmp_push_enabled());
    assert!(!startup.hub.rtmp_pull_enabled());
}

#[test]
fn full_configuration_starts_everything_in_order() {
    let config = XiuConfig {
        rtmp: Some(RtmpConfig {
            enabled: true,
            port: None,
            pull: Some(RtmpPullConfig {
                enabled: true,
                address: "192.168.0.2".to_string(),
                port: 1936,
            }),
            push: Some(vec![
                push(true, "192.168.0.3", 1937),
                push(false, "192.168.0.4", 1938),
                push(true, "relay.example", 1939),
            ]),
        }),
        httpflv: Some(HttpFlvConfig { enabled: true, port: None }),
        hls: Some(HlsConfig { enabled: true, port: 8080 }),
        log: None,
    };
    let startup = Xiu::new(config).run();
    assert_eq!(
        startup.tasks,
        vec![
            Task::HttpFlvServer { port: 8081 },
            Task::HlsEventProcessor,
            Task::HlsServer { port: 8080 },
            Task::PushClient { address: "192.168.0.3:1937".to_string() },
            Task::PushClient { address: "relay.example:1939".to_string() },
            Task::PullClient { address: "192.168.0.2:1936".to_string() },
            Task::RtmpServer { address: "0.0.0.0:1935".to_string() },
            Task::Hub,
        ]
    );
    assert!(startup.hub.hls_enabled());
    assert!(startup.hub.rtmp_push_enabled());
    assert!(startup.hub.rtmp_pull_enabled());
}

#[test]
fn relay_flags_follow_the_enabled_relays() {
    let config = XiuConfig {
        rtmp: Some(RtmpConfig {
            enabled: true,
            port: Some(2000),
            pull: Some(RtmpPullConfig { enabled: false, address: "a".to_string(), port: 1 }),
            push: Some(vec![push(false, "b", 2), push(false, "c", 3)]),
        }),
        httpflv: None,
        hls: None,
        log: None,
    };
    let startup = Xiu::new(config).run();
    assert_eq!(
        startup.tasks,
        vec![Task::RtmpServer { address: "0.0.0.0:2000".to_string() }, Task::Hub]
    );
    assert!(!startup.hub.rtmp_push_enabled());
    assert!(!startup.hub.rtmp_pull_enabled());
    assert!(!startup.hub.hls_enabled());
}

#[test]
fn sections_can_be_started_one_by_one() {
    let mut tasks = vec![Task::Hub];
    Xiu::start_httpflv(&HttpFlvConfig { enabled: false, port: Some(9) }, &mut tasks);
    assert_eq!(tasks, vec![Task::Hub, Task::HttpFlvServer { port: 9 }]);
    let mut hub = xiu::channels::ChannelsManager::new();
    Xiu::start_hls(&HlsConfig { enabled: true, port: 7 }, &mut hub, &mut tasks);
    assert!(hub.hls_enabled());
    assert_eq!(tasks.len(), 4);
    let rtmp = RtmpConfig { enabled: true, port: None, pull: None, push: Some(Vec::new()) };
    Xiu::start_rtmp(&rtmp, &mut hub, &mut tasks);
    assert_eq!(tasks.last(), Some(&Task::RtmpServer { address: "0.0.0.0:1935".to_string() }));
    assert!(!hub.rtmp_push_enabled());
}

#[test]
fn log_levels_become_filters_of_the_same_name() {
    assert_eq!(LogLevel::Off.into(), log::LevelFilter::Off);
    assert_eq!(LogLevel::Error.into(), log::LevelFilter::Error);
    assert_eq!(LogLevel::Warn.into(), log::LevelFilter::Warn);
    assert_eq!(LogLevel::Info.into(), log::LevelFilter::Info);
    assert_eq!(LogLevel::Debug.into(), log::LevelFilter::Debug);
    assert_eq!(LogLevel::Trace.into(), log::LevelFilter::Trace);
}
