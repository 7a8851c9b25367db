use gather::zome_traits::{
    all_exposable, fingerprint, hash_var_name, implement_zome_trait_as_externs,
    implemented_zome_traits, implements, same_hash, zome_trait, ExternFn, MethodInput,
    TraitMethod,
};

const EMPTY_DIGEST: [u8; 32] = [
    0x71, 0x6F, 0x6E, 0x86, 0x3F, 0x74, 0x4B, 0x9A, 0xC2, 0x2C, 0x97, 0xEC, 0x7B, 0x76, 0xEA, 0x5F,
    0x59, 0x08, 0xBC, 0x5B, 0x2F, 0x67, 0xC6, 0x15, 0x10, 0xBF, 0xC4, 0x75, 0x13, 0x84, 0xEA, 0x7A,
];

const FOX_DIGEST: [u8; 32] = [
    0x1B, 0x59, 0x7C, 0x7A, 0x88, 0x9F, 0xCE, 0xB1, 0xCC, 0x75, 0x6D, 0x6C, 0x6C, 0x06, 0xA7, 0xF9,
    0x22, 0x5E, 0x02, 0xBB, 0x0C, 0x02, 0x6E, 0x8B, 0xC5, 0xEB, 0x4E, 0xA7, 0x61, 0x0E, 0xBB, 0x9E,
];

fn method(name: &str, input: MethodInput, output: &str) -> TraitMethod {
    TraitMethod { name: name.to_string(), input, output: output.to_string() }
}

#[test]
fn fingerprint_is_the_blake_256_digest() {
    assert_eq!(fingerprint(""), EMPTY_DIGEST);
    assert_eq!(fingerprint("The lazy fox jumps over the lazy dog"), FOX_DIGEST);
    assert_ne!(fingerprint("a"), fingerprint("b"));
    assert_eq!(fingerprint("a"), fingerprint("a"));
}

#[test]
fn fingerprint_is_kept_under_an_upper_snake_name() {
    assert_eq!(hash_var_name("PendingNotifications"), "PENDING_NOTIFICATIONS_HASH");
    assert_eq!(hash_var_name("MutualCredit"), "MUTUAL_CREDIT_HASH");
    assert_eq!(hash_var_name("x"), "X_HASH");
}

#[test]
fn a_contract_is_declared_by_name_and_signatures() {
    let t = zome_trait("PendingNotifications", "The lazy fox jumps over the lazy dog");
    assert_eq!(t.name, "PendingNotifications");
    assert_eq!(t.hash_var_name, "PENDING_NOTIFICATIONS_HASH");
    assert_eq!(t.hash, FOX_DIGEST);
}

#[test]
fn functions_are_exposed_behind_two_underscores() {
    let methods = vec![
        method(
            "get_notification",
            MethodInput::Typed("GetNotificationInput".to_string()),
            "ExternResult<Option<Notification>>",
        ),
        method("get_pending_notifications", MethodInput::Typed("()".to_string()), "ExternResult<()>"),
    ];
    assert!(all_exposable(&methods));
    assert_eq!(
        implement_zome_trait_as_externs("AlertsNotifications", &methods),
        vec![
            ExternFn {
                extern_fn_name: "__get_notification".to_string(),
                input_type: "GetNotificationInput".to_string(),
                output: "ExternResult<Option<Notification>>".to_string(),
                target: "AlertsNotifications::get_notification".to_string(),
            },
            ExternFn {
                extern_fn_name: "__get_pending_notifications".to_string(),
                input_type: "()".to_string(),
                output: "ExternResult<()>".to_string(),
                target: "AlertsNotifications::get_pending_notifications".to_string(),
            },
        ]
    );
    assert!(implement_zome_trait_as_externs("X", &vec![]).is_empty());
}

#[test]
fn functions_without_a_typed_input_cannot_be_exposed() {
    assert!(!all_exposable(&vec![method("f", MethodInput::Nothing, "()")]));
    assert!(!all_exposable(&vec![
        method("g", MethodInput::Typed("u8".to_string()), "()"),
        method("f", MethodInput::Receiver, "()"),
    ]));
    assert!(all_exposable(&vec![]));
}

#[test]
fn a_module_lists_what_it_implements() {
    let a = zome_trait("PendingNotifications", "fn get_notification");
    let b = zome_trait("MutualCredit", "fn pay");
    let c = zome_trait("Other", "fn other");
    let registry = implemented_zome_traits(&vec![a.clone(), b.clone()]);
    assert_eq!(registry, vec![a.hash, b.hash]);
    assert!(implements(&registry, &a.hash));
    assert!(implements(&registry, &b.hash));
    assert!(!implements(&registry, &c.hash));
    assert!(!implements(&vec![], &a.hash));
    assert!(same_hash(&a.hash, &a.hash));
    assert!(!same_hash(&a.hash, &b.hash));
    let mut almost = a.hash;
    almost[31] ^= 1;
    assert!(!same_hash(&a.hash, &almost));
}
