use engine::basic::next_server_id;
use engine::basic::BasicOverworld;
use engine::basic::BasicServer;
use engine::basic::BasicWorld;
use engine::basic::IdCounter;
use engine::Named;
use engine::Server;
use engine::ServerHolder;

#[test]
fn id_sequence_is_increasing_and_distinct() {
    let mut counter = IdCounter::new();
    let a = next_server_id(&mut counter);
    let b = next_server_id(&mut counter);
    let c = next_server_id(&mut counter);
    assert_eq!(a, 0);
    assert_eq!(b, 1);
    assert_eq!(c, 2);
    assert!(a < b && b < c);
    assert_ne!(a, b);
    assert_ne!(b, c);
    assert_ne!(a, c);
}

#[test]
fn register_fresh_name_succeeds() {
    let mut counter = IdCounter::new();
    let mut server = BasicServer::new(None, &mut counter, String::from("/srv"));
    assert_eq!(server.world_count(), 0);
    let world = BasicWorld::new(String::from("myworld"));
    assert!(server.register(world, String::from("myworld")));
    assert_eq!(server.world_count(), 1);
    let entry = server.get_world(&String::from("myworld"));
    assert_eq!(entry.unwrap().get_name(), "myworld");
}

#[test]
fn duplicate_registration_is_refused_and_keeps_first_world() {
    let mut counter = IdCounter::new();
    let mut server = BasicServer::new(None, &mut counter, String::from("/srv"));
    let first = BasicWorld::new(String::from("first"));
    let second = BasicWorld::new(String::from("second"));
    assert!(server.register(first, String::from("shared")));
    assert!(!server.register(second, String::from("shared")));
    assert_eq!(server.world_count(), 1);
    let entry = server.get_world(&String::from("shared"));
    assert_eq!(entry.unwrap().get_name(), "first");
}

#[test]
fn registration_leaves_id_name_and_path_unchanged() {
    let mut counter = IdCounter::new();
    let mut server = BasicServer::new(None, &mut counter, String::from("/srv"));
    let id_before = server.get_id();
    assert!(server.register(BasicWorld::new(String::from("w")), String::from("w")));
    assert!(!server.register(BasicWorld::new(String::from("x")), String::from("w")));
    assert!(server.auto_register(BasicWorld::new(String::from("y"))));
    assert_eq!(server.get_id(), id_before);
    assert_eq!(server.get_name(), "basic_server0");
    assert_eq!(server.get_path(), "/srv");
}

#[test]
fn distinct_names_both_register() {
    let mut counter = IdCounter::new();
    let mut server = BasicServer::new(None, &mut counter, String::from("/srv"));
    assert!(server.register(BasicWorld::new(String::from("a")), String::from("a")));
    assert!(server.register(BasicWorld::new(String::from("b")), String::from("b")));
    assert_eq!(server.world_count(), 2);
}

#[test]
fn auto_register_uses_the_world_name() {
    let mut counter = IdCounter::new();
    let mut auto_server = BasicServer::new(None, &mut counter, String::from("/srv"));
    let mut plain_server = BasicServer::new(None, &mut counter, String::from("/srv"));

    let by_auto = auto_server.auto_register(BasicWorld::new(String::from("alpha")));
    let by_name = plain_server.register(BasicWorld::new(String::from("alpha")), String::from("alpha"));
    assert_eq!(by_auto, by_name);
    assert!(by_auto);

    let auto_entry = auto_server.get_world(&String::from("alpha"));
    let plain_entry = plain_server.get_world(&String::from("alpha"));
    assert_eq!(auto_entry.unwrap().get_name(), plain_entry.unwrap().get_name());

    // A second auto-registration under the same world name is refused, like
    // a plain registration under that name.
    assert!(!auto_server.auto_register(BasicWorld::new(String::from("alpha"))));
    assert_eq!(auto_server.world_count(), 1);
}

#[test]
fn default_names_reflect_distinct_ids() {
    let mut counter = IdCounter::new();
    let first = BasicServer::new(None, &mut counter, String::from("/srv"));
    let second = BasicServer::new(None, &mut counter, String::from("/srv"));
    assert_eq!(first.get_name(), "basic_server0");
    assert_eq!(second.get_name(), "basic_server1");
    assert_ne!(first.get_id(), second.get_id());
    assert_eq!(first.get_id(), 0);
    assert_eq!(second.get_id(), 1);
}

#[test]
fn supplied_name_is_kept() {
    let mut counter = IdCounter::new();
    let server = BasicServer::new(Some(String::from("main")), &mut counter, String::from("/srv"));
    assert_eq!(server.get_name(), "main");
    // The id is drawn even when the name is supplied.
    assert_eq!(server.get_id(), 0);
    assert_eq!(counter.current(), 1);
}

#[test]
fn default_name_renders_larger_ids_in_decimal() {
    let mut counter = IdCounter::new();
    for _ in 0..42 {
        next_server_id(&mut counter);
    }
    let server = BasicServer::new(None, &mut counter, String::from("/srv"));
    assert_eq!(server.get_name(), "basic_server42");
}

#[test]
fn get_path_returns_the_resolved_base_path() {
    let mut counter = IdCounter::new();
    let server = BasicServer::new(None, &mut counter, String::from("/opt/host/bin"));
    assert_eq!(server.get_path(), "/opt/host/bin");
}

#[test]
fn world_reports_its_name() {
    let world = BasicWorld::new(String::from("overhill"));
    assert_eq!(world.get_name(), "overhill");
}

#[test]
fn overworld_dimension_is_named_overworld() {
    let dim = BasicOverworld {};
    assert_eq!(dim.get_name(), "Overworld");
}

#[test]
fn holder_is_transparent() {
    let mut counter = IdCounter::new();
    let server = BasicServer::new(None, &mut counter, String::from("/srv"));
    let mut holder = ServerHolder::new(server);
    assert_eq!(holder.get_name(), "basic_server0");
    assert_eq!(holder.get_path(), "/srv");
    assert!(holder.register(BasicWorld::new(String::from("w")), String::from("w")));
    assert!(!holder.register(BasicWorld::new(String::from("w")), String::from("w")));
    assert_eq!(holder.0.world_count(), 1);
}

#[test]
fn counter_reports_the_next_id() {
    let mut counter = IdCounter::new();
    assert_eq!(counter.current(), 0);
    next_server_id(&mut counter);
    assert_eq!(counter.current(), 1);
}
