use common::config::{
    BindAddr, BindAddrV4, BindAddrV6, Config, Database, LuminaServer, TlsIdentity, WebServer,
};
use std::path::PathBuf;

#[test]
fn config_holds_what_it_is_given() {
    let config = Config {
        lumina: LuminaServer {
            bind_addr: BindAddr::V4(BindAddrV4 { ip: [0, 0, 0, 0], port: 1234 }),
            use_tls: Some(true),
            tls: Some(TlsIdentity { server_cert: PathBuf::from("/etc/lumen/server.p12") }),
        },
        api_server: Some(WebServer {
            enabled: false,
            bind_addr: BindAddr::V6(BindAddrV6 {
                ip: [0; 16],
                port: 8082,
                flowinfo: 0,
                scope_id: 0,
            }),
            secret_key: String::from("k"),
            google_api_client_id: String::from("id"),
            google_api_secret: String::from("s"),
        }),
        database: Database {
            connection_info: String::from("host=db user=lumen"),
            use_tls: false,
            server_ca: None,
            client_id: Some(PathBuf::from("client.p12")),
        },
    };
    assert!(matches!(
        config.lumina.bind_addr,
        BindAddr::V4(BindAddrV4 { ip: [0, 0, 0, 0], port: 1234 })
    ));
    assert_eq!(config.lumina.use_tls, Some(true));
    assert_eq!(
        config.lumina.tls.unwrap().server_cert,
        PathBuf::from("/etc/lumen/server.p12")
    );
    let web = config.api_server.unwrap();
    assert!(!web.enabled);
    assert!(matches!(web.bind_addr, BindAddr::V6(BindAddrV6 { port: 8082, .. })));
    assert_eq!(config.database.connection_info, "host=db user=lumen");
    assert!(config.database.server_ca.is_none());
    assert_eq!(config.database.client_id, Some(PathBuf::from("client.p12")));
}
