use berkeley_socket::errno::SystemError;
use berkeley_socket::socket::inet::common::port::{PortManager, EPHEMERAL_PORT_MAX, EPHEMERAL_PORT_MIN};
use berkeley_socket::socket::inet::common::Types;

#[test]
fn port_zero_is_an_invalid_argument() {
    let mut ports = PortManager::new();
    assert_eq!(ports.bind_port(Types::Tcp, 0), Err(SystemError::EINVAL));
    assert_eq!(ports.bind_port(Types::Udp, 0), Err(SystemError::EINVAL));
    assert!(!ports.is_allocated(Types::Tcp, 0));
}

#[test]
fn a_port_is_allocated_once() {
    let mut ports = PortManager::new();
    assert!(!ports.is_allocated(Types::Tcp, 8080));
    assert_eq!(ports.bind_port(Types::Tcp, 8080), Ok(()));
    assert!(ports.is_allocated(Types::Tcp, 8080));
    assert_eq!(ports.bind_port(Types::Tcp, 8080), Err(SystemError::EADDRINUSE));
    assert!(ports.is_allocated(Types::Tcp, 8080));
}

#[test]
fn protocols_have_namespaces_of_their_own() {
    let mut ports = PortManager::new();
    assert_eq!(ports.bind_port(Types::Tcp, 53), Ok(()));
    assert!(!ports.is_allocated(Types::Udp, 53));
    assert_eq!(ports.bind_port(Types::Udp, 53), Ok(()));
    assert_eq!(ports.bind_port(Types::Dns, 53), Ok(()));
    assert_eq!(ports.bind_port(Types::Raw, 53), Ok(()));
    assert_eq!(ports.bind_port(Types::Icmp, 53), Ok(()));
    assert_eq!(ports.bind_port(Types::Dhcpv4, 53), Ok(()));
    ports.unbind_port(Types::Tcp, 53);
    assert!(!ports.is_allocated(Types::Tcp, 53));
    assert!(ports.is_allocated(Types::Udp, 53));
}

#[test]
fn unbinding_a_free_port_does_nothing() {
    let mut ports = PortManager::new();
    assert_eq!(ports.bind_port(Types::Udp, 1000), Ok(()));
    ports.unbind_port(Types::Udp, 1001);
    ports.unbind_port(Types::Udp, 0);
    assert!(ports.is_allocated(Types::Udp, 1000));
    ports.unbind_port(Types::Udp, 1000);
    assert!(!ports.is_allocated(Types::Udp, 1000));
    assert_eq!(ports.bind_port(Types::Udp, 1000), Ok(()));
}

#[test]
fn ephemeral_ports_rotate_through_the_range() {
    let mut ports = PortManager::new();
    assert_eq!(EPHEMERAL_PORT_MIN, 49152);
    assert_eq!(EPHEMERAL_PORT_MAX, 65535);
    assert_eq!(ports.bind_ephemeral_port(Types::Tcp), Ok(49152));
    assert_eq!(ports.bind_ephemeral_port(Types::Tcp), Ok(49153));
    // A freed port is not handed out again before the cursor comes round.
    ports.unbind_port(Types::Tcp, 49152);
    assert_eq!(ports.bind_ephemeral_port(Types::Tcp), Ok(49154));
    // An explicit allocation in the range is skipped.
    assert_eq!(ports.bind_port(Types::Tcp, 49155), Ok(()));
    assert_eq!(ports.bind_ephemeral_port(Types::Tcp), Ok(49156));
    // The other protocols have cursors of their own.
    assert_eq!(ports.bind_ephemeral_port(Types::Udp), Ok(49152));
}

#[test]
fn the_ephemeral_range_can_be_exhausted() {
    let mut ports = PortManager::new();
    for expected in 49152..=65535u32 {
        assert_eq!(ports.bind_ephemeral_port(Types::Udp), Ok(expected as u16));
    }
    assert_eq!(ports.bind_ephemeral_port(Types::Udp), Err(SystemError::EADDRINUSE));
    // Ports below the range are still free, and so is the range of TCP.
    assert_eq!(ports.bind_port(Types::Udp, 49151), Ok(()));
    assert_eq!(ports.bind_ephemeral_port(Types::Tcp), Ok(49152));
    // Once a port of the range is free, the search wraps round to it.
    ports.unbind_port(Types::Udp, 50000);
    assert_eq!(ports.bind_ephemeral_port(Types::Udp), Ok(50000));
    assert_eq!(ports.bind_ephemeral_port(Types::Udp), Err(SystemError::EADDRINUSE));
}
