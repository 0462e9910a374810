use mcproxy::routes::{IpAddress, SocketAddress};
use mcproxy::server::{Server, Snapshot};

#[test]
fn default_server_listens_on_conventional_ports() {
    let s = Server::default_server();
    assert_eq!(s.proxy_listen, SocketAddress { ip: IpAddress::V6(0), port: 25565 });
    assert_eq!(s.control_listen, SocketAddress { ip: IpAddress::V6(0), port: 80 });
    assert!(s.routes.entries().is_empty());
    let d = Server::default();
    assert_eq!(d.proxy_listen.port, 25565);
}

#[test]
fn register_route_uses_backend_port() {
    let mut s = Server::default_server();
    s.register_route("play.example.com".to_string(), IpAddress::V4(0x0a00_0005));
    assert_eq!(
        s.routes.lookup("play.example.com"),
        Some(SocketAddress { ip: IpAddress::V4(0x0a00_0005), port: 25565 })
    );
}

#[test]
fn register_route_overwrites_any_claim() {
    let mut s = Server::default_server();
    s.register_route("h".to_string(), IpAddress::V4(1));
    s.register_route("h".to_string(), IpAddress::V6(2));
    assert_eq!(s.routes.lookup("h"), Some(SocketAddress { ip: IpAddress::V6(2), port: 25565 }));
}

#[test]
fn snapshot_round_trip() {
    let mut s = Server::default_server();
    s.proxy_listen = SocketAddress { ip: IpAddress::V4(0x7f00_0001), port: 4000 };
    s.register_route("a.example".to_string(), IpAddress::V4(1));
    s.register_route("b.example".to_string(), IpAddress::V4(2));
    s.register_route("c.example".to_string(), IpAddress::V6(3));
    let loaded = Server::from_snapshot(s.snapshot());
    assert_eq!(loaded.proxy_listen, s.proxy_listen);
    assert_eq!(loaded.control_listen, s.control_listen);
    let mut a = loaded.routes.entries();
    let mut b = s.routes.entries();
    a.sort_by(|x, y| x.0.cmp(&y.0));
    b.sort_by(|x, y| x.0.cmp(&y.0));
    assert_eq!(a, b);
    assert_eq!(a.len(), 3);
}

#[test]
fn from_snapshot_keeps_last_duplicate() {
    let x = SocketAddress { ip: IpAddress::V4(1), port: 1 };
    let y = SocketAddress { ip: IpAddress::V4(2), port: 2 };
    let snap = Snapshot {
        routes: vec![("h".to_string(), x), ("h".to_string(), y)],
        proxy_listen: x,
        control_listen: y,
    };
    let s = Server::from_snapshot(snap);
    assert_eq!(s.routes.lookup("h"), Some(y));
    assert_eq!(s.routes.entries().len(), 1);
}
