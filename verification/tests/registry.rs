use server_fn_registry::DioxusServerFnRegistry;
use server_fn_registry::Encoding;
use server_fn_registry::ServerFn;
use server_fn_registry::ServerFnError;
use server_fn_registry::ServerRegistrationFnError;

type Handle = fn(i32, i32) -> i32;

fn add(a: i32, b: i32) -> i32 {
    a + b
}

fn mul(a: i32, b: i32) -> i32 {
    a * b
}

#[test]
fn first_registration_succeeds() {
    let mut reg: DioxusServerFnRegistry<Handle> = DioxusServerFnRegistry::new();
    assert!(reg.register("/api/add", add, Encoding::Json).is_ok());
}

#[test]
fn duplicate_registration_fails_and_keeps_first() {
    let mut reg: DioxusServerFnRegistry<Handle> = DioxusServerFnRegistry::new();
    assert!(reg.register("/api/add", add, Encoding::Json).is_ok());
    let second = reg.register("/api/add", mul, Encoding::Url);
    assert_eq!(
        second,
        Err(ServerRegistrationFnError::AlreadyRegistered(
            "/api/add".to_string()
        ))
    );
    let record = reg.get("/api/add").expect("first record must stay");
    assert_eq!(record.encoding, Encoding::Json);
    assert_eq!((record.trait_obj)(1, 2), 3);
    assert_eq!((record.trait_obj)(2, 3), 5);
}

#[test]
fn registration_is_visible_to_lookup() {
    let mut reg: DioxusServerFnRegistry<Handle> = DioxusServerFnRegistry::new();
    assert!(reg.register("/api/mul", mul, Encoding::Cbor).is_ok());
    let record = reg.get("/api/mul").expect("record must be visible");
    assert_eq!(record.encoding, Encoding::Cbor);
    assert_eq!((record.trait_obj)(4, 5), 20);
    let handle = reg.get_trait_obj("/api/mul").expect("handle must be visible");
    assert_eq!(handle(6, 7), 42);
    assert_eq!(reg.get_encoding("/api/mul"), Some(Encoding::Cbor));
}

#[test]
fn lookups_on_absent_key_return_none() {
    let mut reg: DioxusServerFnRegistry<Handle> = DioxusServerFnRegistry::new();
    assert!(reg.get("/api/missing").is_none());
    assert!(reg.get_trait_obj("/api/missing").is_none());
    assert!(reg.get_encoding("/api/missing").is_none());
    assert!(reg.register("/api/other", add, Encoding::Url).is_ok());
    assert!(reg.get("/api/missing").is_none());
    assert!(reg.get_trait_obj("/api/missing").is_none());
    assert!(reg.get_encoding("/api/missing").is_none());
}

#[test]
fn paths_registered_lists_exactly_the_keys() {
    let mut reg: DioxusServerFnRegistry<Handle> = DioxusServerFnRegistry::new();
    assert!(reg.register("/api/a", add, Encoding::Json).is_ok());
    assert!(reg.register("/api/b", mul, Encoding::Url).is_ok());
    assert!(reg.register("/api/c", add, Encoding::Cbor).is_ok());
    let mut paths = reg.paths_registered();
    paths.sort();
    assert_eq!(paths, vec!["/api/a", "/api/b", "/api/c"]);
}

#[test]
fn paths_registered_on_empty_registry_is_empty() {
    let reg: DioxusServerFnRegistry<Handle> = DioxusServerFnRegistry::new();
    assert!(reg.paths_registered().is_empty());
}

#[test]
fn serialized_race_has_one_winner() {
    let mut reg: DioxusServerFnRegistry<Handle> = DioxusServerFnRegistry::new();
    let racers: Vec<Handle> = vec![add, mul, add, mul, add];
    let mut successes: u32 = 0;
    let mut already: u32 = 0;
    for racer in racers {
        match reg.register("/api/contended", racer, Encoding::Json) {
            Ok(()) => successes += 1,
            Err(ServerRegistrationFnError::AlreadyRegistered(k)) => {
                assert_eq!(k, "/api/contended");
                already += 1;
            }
            Err(other) => panic!("unexpected error: {:?}", other),
        }
    }
    assert_eq!(successes, 1);
    assert_eq!(already, 4);
    let handle = reg.get_trait_obj("/api/contended").expect("winner must stay");
    assert_eq!(handle(1, 2), 3);
}

#[test]
fn scenario_api_add() {
    let mut reg: DioxusServerFnRegistry<Handle> = DioxusServerFnRegistry::new();
    assert!(reg.register("/api/add", add, Encoding::Json).is_ok());
    assert_eq!(reg.get_encoding("/api/add"), Some(Encoding::Json));
    let handle = reg.get_trait_obj("/api/add").expect("handle must be present");
    assert_eq!(handle(1, 2), 3);
    assert!(reg.get("/api/missing").is_none());
    assert_eq!(
        reg.register("/api/add", mul, Encoding::Json),
        Err(ServerRegistrationFnError::AlreadyRegistered(
            "/api/add".to_string()
        ))
    );
    let still = reg.get_trait_obj("/api/add").expect("handle must stay");
    assert_eq!(still(1, 2), 3);
    assert!(still == add as Handle);
}

#[test]
fn poisoned_store_rejects_registration() {
    let mut reg: DioxusServerFnRegistry<Handle> = DioxusServerFnRegistry::new();
    reg.mark_poisoned("a writer failed mid-mutation".to_string());
    assert_eq!(
        reg.register("/api/add", add, Encoding::Json),
        Err(ServerRegistrationFnError::Poisoned(
            "a writer failed mid-mutation".to_string()
        ))
    );
}

#[test]
fn poisoned_store_hides_all_lookups() {
    let mut reg: DioxusServerFnRegistry<Handle> = DioxusServerFnRegistry::new();
    assert!(reg.register("/api/add", add, Encoding::Json).is_ok());
    reg.mark_poisoned("a writer failed mid-mutation".to_string());
    assert!(reg.get("/api/add").is_none());
    assert!(reg.get_trait_obj("/api/add").is_none());
    assert!(reg.get_encoding("/api/add").is_none());
    assert!(reg.paths_registered().is_empty());
}

#[test]
fn error_detail_returns_the_payload() {
    let dup = ServerRegistrationFnError::AlreadyRegistered("/api/add".to_string());
    assert_eq!(dup.detail().as_str(), "/api/add");
    let poisoned = ServerRegistrationFnError::Poisoned("lock failure".to_string());
    assert_eq!(poisoned.detail().as_str(), "lock failure");
}

struct ApiAdd;

impl ServerFn<Handle> for ApiAdd {
    // The spec_* members are ghost: they exist only for verification
    // within the library and are never called at run time.
    fn spec_url() -> vstd::seq::Seq<char> {
        unreachable!()
    }

    fn spec_handle() -> Handle {
        unreachable!()
    }

    fn spec_encoding() -> Encoding {
        unreachable!()
    }

    fn url() -> String {
        "/api/add".to_string()
    }

    fn handle() -> Handle {
        add
    }

    fn encoding() -> Encoding {
        Encoding::Json
    }
}

#[test]
fn server_fn_trait_registers_by_url() {
    let mut reg: DioxusServerFnRegistry<Handle> = DioxusServerFnRegistry::new();
    assert!(ApiAdd::register(&mut reg).is_ok());
    assert_eq!(reg.get_encoding("/api/add"), Some(Encoding::Json));
    let handle = reg.get_trait_obj("/api/add").expect("handle must be present");
    assert_eq!(handle(1, 2), 3);
}

#[test]
fn server_fn_trait_duplicate_registration_fails() {
    let mut reg: DioxusServerFnRegistry<Handle> = DioxusServerFnRegistry::new();
    assert!(ApiAdd::register(&mut reg).is_ok());
    assert_eq!(
        ApiAdd::register(&mut reg),
        Err(ServerFnError::Registration("/api/add".to_string()))
    );
}
