use mcproxy::routes::{IpAddress, RouteTable, SocketAddress};

fn addr(ip: u32, port: u16) -> SocketAddress {
    SocketAddress { ip: IpAddress::V4(ip), port }
}

#[test]
fn lookup_finds_registered_backend() {
    let mut t = RouteTable::new();
    let a = addr(0x0a00_0005, 25565);
    t.register("play.example.com".to_string(), a);
    assert_eq!(t.lookup("play.example.com"), Some(a));
}

#[test]
fn lookup_misses_unknown_hostname() {
    let mut t = RouteTable::new();
    assert_eq!(t.lookup("play.example.com"), None);
    t.register("play.example.com".to_string(), addr(1, 1));
    assert_eq!(t.lookup("other.example.com"), None);
    assert_eq!(t.lookup("PLAY.example.com"), None);
}

#[test]
fn register_overwrites() {
    let mut t = RouteTable::new();
    t.register("h".to_string(), addr(1, 1));
    t.register("h".to_string(), addr(2, 2));
    assert_eq!(t.lookup("h"), Some(addr(2, 2)));
}

#[test]
fn other_registrations_leave_route_alone() {
    let mut t = RouteTable::new();
    let a = addr(0x0a00_0005, 25565);
    t.register("play.example.com".to_string(), a);
    for i in 0..50u32 {
        t.register(format!("host{i}.example.com"), addr(i, 1000));
    }
    assert_eq!(t.lookup("play.example.com"), Some(a));
    assert_eq!(t.lookup("host7.example.com"), Some(addr(7, 1000)));
}

#[test]
fn entries_lists_each_route_once() {
    let mut t = RouteTable::new();
    t.register("a".to_string(), addr(1, 1));
    t.register("b".to_string(), addr(2, 2));
    t.register("a".to_string(), addr(3, 3));
    let mut e = t.entries();
    e.sort_by(|x, y| x.0.cmp(&y.0));
    assert_eq!(e, vec![("a".to_string(), addr(3, 3)), ("b".to_string(), addr(2, 2))]);
}
