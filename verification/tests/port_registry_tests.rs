use tunnet::protocol::port_registry::PortRegistry;

#[test]
fn register_then_get() {
    let mut registry: PortRegistry<u32> = PortRegistry::new();
    assert_eq!(registry.get(53), None);
    assert_eq!(registry.register(53, 7), Ok(()));
    assert_eq!(registry.get(53), Some(7));
    assert_eq!(registry.get(54), None);
}

#[test]
fn port_can_be_bound_once() {
    let mut registry: PortRegistry<String> = PortRegistry::new();
    assert!(registry.register(8080, String::from("first")).is_ok());
    assert_eq!(
        registry.register(8080, String::from("second")),
        Err(String::from("port already bound"))
    );
    assert_eq!(registry.get(8080), Some(String::from("first")));
}

#[test]
fn unregister_frees_port() {
    let mut registry: PortRegistry<u8> = PortRegistry::new();
    registry.register(1, 10).unwrap();
    registry.register(2, 20).unwrap();
    assert_eq!(registry.unregister(1), Ok(()));
    assert_eq!(registry.get(1), None);
    assert_eq!(registry.get(2), Some(20));
    assert_eq!(registry.unregister(1), Ok(()));
    assert_eq!(registry.register(1, 11), Ok(()));
    assert_eq!(registry.get(1), Some(11));
}

#[test]
fn register_then_unregister_restores_table() {
    let mut registry: PortRegistry<u8> = PortRegistry::new();
    registry.register(5, 50).unwrap();
    registry.register(6, 60).unwrap();
    registry.unregister(6).unwrap();
    assert_eq!(registry.get(6), None);
    assert_eq!(registry.get(5), Some(50));
    assert!(registry.register(6, 61).is_ok());
}
