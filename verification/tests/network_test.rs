use hypernova_core::errors::NetworkError;
use hypernova_core::network::P2PNetwork;

#[test]
fn peers_connect_and_disconnect() {
    let mut network = P2PNetwork::new(30303).unwrap();
    network.start().unwrap();
    network.connect("10.0.0.1:30303").unwrap();
    network.connect("10.0.0.2:30303").unwrap();
    assert_eq!(network.get_peers().len(), 2);

    network.connect("10.0.0.1:30303").unwrap();
    assert_eq!(network.get_peers().len(), 2);

    network.disconnect("10.0.0.1:30303").unwrap();
    assert_eq!(network.get_peers().len(), 1);
    assert!(matches!(
        network.disconnect("10.0.0.1:30303"),
        Err(NetworkError::PeerNotFound)
    ));
}

#[test]
fn send_requires_connected_peer() {
    let mut network = P2PNetwork::new(30303).unwrap();
    network.connect("10.0.0.1:30303").unwrap();
    assert!(network.send("10.0.0.1:30303", b"ping").is_ok());
    assert!(matches!(
        network.send("10.0.0.9:30303", b"ping"),
        Err(NetworkError::PeerNotFound)
    ));
    assert!(network.broadcast(b"hello").is_ok());
}

#[test]
fn capacity_is_bounded_at_fifty() {
    let mut network = P2PNetwork::new(30303).unwrap();
    for i in 0..50 {
        network.connect(&format!("peer-{}", i)).unwrap();
    }
    assert_eq!(network.get_peers().len(), 50);
    assert!(matches!(
        network.connect("one-too-many"),
        Err(NetworkError::CapacityExceeded)
    ));
}
