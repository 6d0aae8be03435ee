use async_snmp::agent::vacm::{
    ContextMatch, SecurityModel, VacmAccessEntry, VacmBuilder, VacmConfig, View, ViewSubtree,
};
use async_snmp::message::SecurityLevel;
use async_snmp::oid::Oid;

#[test]
fn test_view_contains_simple() {
    let view = View::new().include_subtree(Oid::from_slice(&[1, 3, 6, 1, 2, 1])); // system MIB

    // OID within the subtree
    assert!(view.contains(&Oid::from_slice(&[1, 3, 6, 1, 2, 1, 1, 0])));
    assert!(view.contains(&Oid::from_slice(&[1, 3, 6, 1, 2, 1, 2, 1, 1])));

    // OID exactly at subtree
    assert!(view.contains(&Oid::from_slice(&[1, 3, 6, 1, 2, 1])));

    // OID outside the subtree
    assert!(!view.contains(&Oid::from_slice(&[1, 3, 6, 1, 4, 1])));
    assert!(!view.contains(&Oid::from_slice(&[1, 3, 6, 1, 2])));
}

#[test]
fn test_view_exclude() {
    let view = View::new()
        .include_subtree(Oid::from_slice(&[1, 3, 6, 1, 2, 1])) // system MIB
        .exclude(Oid::from_slice(&[1, 3, 6, 1, 2, 1, 1, 7])); // sysServices

    // Included OIDs
    assert!(view.contains(&Oid::from_slice(&[1, 3, 6, 1, 2, 1, 1, 0])));
    assert!(view.contains(&Oid::from_slice(&[1, 3, 6, 1, 2, 1, 1, 1, 0])));

    // Excluded OID
    assert!(!view.contains(&Oid::from_slice(&[1, 3, 6, 1, 2, 1, 1, 7])));
    assert!(!view.contains(&Oid::from_slice(&[1, 3, 6, 1, 2, 1, 1, 7, 0])));
}

#[test]
fn test_view_subtree_mask() {
    // Create a view that matches ifDescr.* (any interface index)
    // The subtree OID is ifDescr (1.3.6.1.2.1.2.2.1.2) with 10 arcs (indices 0-9)
    // We want arcs 0-9 to match exactly, and arc 10+ to be wildcard
    // Mask: 0xFF = 11111111 (arcs 0-7 must match)
    //       0xC0 = 11000000 (arcs 8-9 must match, 10-15 wildcard)
    let subtree = ViewSubtree {
        oid: Oid::from_slice(&[1, 3, 6, 1, 2, 1, 2, 2, 1, 2]), // ifDescr
        mask: vec![0xFF, 0xC0],                  // 11111111 11000000 - arcs 0-9 must match
        included: true,
    };

    // Should match with any interface index in position 10
    assert!(subtree.matches(&Oid::from_slice(&[1, 3, 6, 1, 2, 1, 2, 2, 1, 2, 1])));
    assert!(subtree.matches(&Oid::from_slice(&[1, 3, 6, 1, 2, 1, 2, 2, 1, 2, 999])));

    // Should not match if arc 9 differs (the "2" in ifDescr)
    assert!(!subtree.matches(&Oid::from_slice(&[1, 3, 6, 1, 2, 1, 2, 2, 1, 3, 1])));
}

#[test]
fn test_vacm_group_lookup() {
    let mut config = VacmConfig::new();
    config.add_group(b"public", SecurityModel::V2c, b"readonly_group");
    config.add_group(b"admin", SecurityModel::Usm, b"admin_group");

    assert_eq!(
        config.get_group(SecurityModel::V2c, b"public"),
        Some(&b"readonly_group".to_vec())
    );
    assert_eq!(
        config.get_group(SecurityModel::Usm, b"admin"),
        Some(&b"admin_group".to_vec())
    );
    assert_eq!(config.get_group(SecurityModel::V1, b"public"), None);
}

#[test]
fn test_vacm_group_any_model() {
    let mut config = VacmConfig::new();
    config.add_group(b"universal", SecurityModel::Any, b"universal_group");

    // Should match any security model
    assert_eq!(
        config.get_group(SecurityModel::V1, b"universal"),
        Some(&b"universal_group".to_vec())
    );
    assert_eq!(
        config.get_group(SecurityModel::V2c, b"universal"),
        Some(&b"universal_group".to_vec())
    );
}

#[test]
fn test_vacm_access_lookup() {
    let mut config = VacmConfig::new();
    config.add_access(VacmAccessEntry {
        group_name: b"readonly_group".to_vec(),
        context_prefix: Vec::new(),
        security_model: SecurityModel::Any,
        security_level: SecurityLevel::NoAuthNoPriv,
        context_match: ContextMatch::Exact,
        read_view: b"full_view".to_vec(),
        write_view: Vec::new(),
        notify_view: Vec::new(),
    });

    let access = config.get_access(
        b"readonly_group",
        b"",
        SecurityModel::V2c,
        SecurityLevel::NoAuthNoPriv,
    );
    assert!(access.is_some());
    assert_eq!(access.unwrap().read_view, b"full_view".to_vec());
}

#[test]
fn test_vacm_access_security_level() {
    let mut config = VacmConfig::new();
    config.add_access(VacmAccessEntry {
        group_name: b"admin_group".to_vec(),
        context_prefix: Vec::new(),
        security_model: SecurityModel::Usm,
        security_level: SecurityLevel::AuthPriv, // Require encryption
        context_match: ContextMatch::Exact,
        read_view: b"full_view".to_vec(),
        write_view: b"full_view".to_vec(),
        notify_view: Vec::new(),
    });

    // Should not match with lower security level
    let access = config.get_access(
        b"admin_group",
        b"",
        SecurityModel::Usm,
        SecurityLevel::AuthNoPriv,
    );
    assert!(access.is_none());

    // Should match with required level
    let access = config.get_access(
        b"admin_group",
        b"",
        SecurityModel::Usm,
        SecurityLevel::AuthPriv,
    );
    assert!(access.is_some());
}

#[test]
fn test_vacm_check_access() {
    let mut config = VacmConfig::new();
    config.add_view(b"full_view", View::new().include_subtree(Oid::from_slice(&[1, 3, 6, 1])));

    assert!(config.check_access(
        Some(&b"full_view"[..]),
        &Oid::from_slice(&[1, 3, 6, 1, 2, 1, 1, 0]),
    ));

    // Empty view name = no access
    assert!(!config.check_access(Some(&[][..]), &Oid::from_slice(&[1, 3, 6, 1, 2, 1, 1, 0]),));

    // None = no access
    assert!(!config.check_access(None, &Oid::from_slice(&[1, 3, 6, 1, 2, 1, 1, 0]),));

    // Unknown view = no access
    assert!(!config.check_access(
        Some(&b"unknown_view"[..]),
        &Oid::from_slice(&[1, 3, 6, 1, 2, 1, 1, 0]),
    ));
}

#[test]
fn test_vacm_builder() {
    let config = VacmBuilder::new()
        .group(b"public", SecurityModel::V2c, b"readonly_group")
        .group(b"admin", SecurityModel::Usm, b"admin_group")
        .access(b"readonly_group", |a| {
            a.context_prefix(b"")
                .security_model(SecurityModel::Any)
                .security_level(SecurityLevel::NoAuthNoPriv)
                .read_view(b"full_view")
        })
        .access(b"admin_group", |a| {
            a.security_model(SecurityModel::Usm)
                .security_level(SecurityLevel::AuthPriv)
                .read_view(b"full_view")
                .write_view(b"full_view")
        })
        .view(b"full_view", |v| v.include_subtree(Oid::from_slice(&[1, 3, 6, 1])))
        .build();

    assert!(config.get_group(SecurityModel::V2c, b"public").is_some());
    assert!(config.get_group(SecurityModel::Usm, b"admin").is_some());
}

#[test]
fn test_vacm_access_prefers_specific_security_model_over_any() {
    // Tier 1: Specific securityModel should be preferred over Any
    let mut config = VacmConfig::new();

    // Add entry with Any security model
    config.add_access(VacmAccessEntry {
        group_name: b"test_group".to_vec(),
        context_prefix: Vec::new(),
        security_model: SecurityModel::Any,
        security_level: SecurityLevel::NoAuthNoPriv,
        context_match: ContextMatch::Exact,
        read_view: b"any_view".to_vec(),
        write_view: Vec::new(),
        notify_view: Vec::new(),
    });

    // Add entry with specific V2c security model
    config.add_access(VacmAccessEntry {
        group_name: b"test_group".to_vec(),
        context_prefix: Vec::new(),
        security_model: SecurityModel::V2c,
        security_level: SecurityLevel::NoAuthNoPriv,
        context_match: ContextMatch::Exact,
        read_view: b"v2c_view".to_vec(),
        write_view: Vec::new(),
        notify_view: Vec::new(),
    });

    // Query with V2c - should get the specific V2c entry
    let access = config
        .get_access(
            b"test_group",
            b"",
            SecurityModel::V2c,
            SecurityLevel::NoAuthNoPriv,
        )
        .expect("should find access entry");
    assert_eq!(
        access.read_view,
        b"v2c_view".to_vec(),
        "should prefer specific security model over Any"
    );
}

#[test]
fn test_vacm_access_prefers_exact_context_match_over_prefix() {
    // Tier 2: Exact contextMatch should be preferred over prefix match
    let mut config = VacmConfig::new();

    // Add entry with prefix context match
    config.add_access(VacmAccessEntry {
        group_name: b"test_group".to_vec(),
        context_prefix: b"ctx".to_vec(),
        security_model: SecurityModel::Any,
        security_level: SecurityLevel::NoAuthNoPriv,
        context_match: ContextMatch::Prefix,
        read_view: b"prefix_view".to_vec(),
        write_view: Vec::new(),
        notify_view: Vec::new(),
    });

    // Add entry with exact context match (same prefix)
    config.add_access(VacmAccessEntry {
        group_name: b"test_group".to_vec(),
        context_prefix: b"ctx".to_vec(),
        security_model: SecurityModel::Any,
        security_level: SecurityLevel::NoAuthNoPriv,
        context_match: ContextMatch::Exact,
        read_view: b"exact_view".to_vec(),
        write_view: Vec::new(),
        notify_view: Vec::new(),
    });

    // Query with exact context "ctx" - should get the exact match entry
    let access = config
        .get_access(
            b"test_group",
            b"ctx",
            SecurityModel::V2c,
            SecurityLevel::NoAuthNoPriv,
        )
        .expect("should find access entry");
    assert_eq!(
        access.read_view,
        b"exact_view".to_vec(),
        "should prefer exact context match over prefix"
    );
}

#[test]
fn test_vacm_access_prefers_longer_context_prefix() {
    // Tier 3: Longer contextPrefix should be preferred
    let mut config = VacmConfig::new();

    // Add entry with shorter context prefix
    config.add_access(VacmAccessEntry {
        group_name: b"test_group".to_vec(),
        context_prefix: b"ctx".to_vec(),
        security_model: SecurityModel::Any,
        security_level: SecurityLevel::NoAuthNoPriv,
        context_match: ContextMatch::Prefix,
        read_view: b"short_view".to_vec(),
        write_view: Vec::new(),
        notify_view: Vec::new(),
    });

    // Add entry with longer context prefix
    config.add_access(VacmAccessEntry {
        group_name: b"test_group".to_vec(),
        context_prefix: b"ctx_longer".to_vec(),
        security_model: SecurityModel::Any,
        security_level: SecurityLevel::NoAuthNoPriv,
        context_match: ContextMatch::Prefix,
        read_view: b"long_view".to_vec(),
        write_view: Vec::new(),
        notify_view: Vec::new(),
    });

    // Query with context that matches both - should get the longer prefix
    let access = config
        .get_access(
            b"test_group",
            b"ctx_longer_suffix",
            SecurityModel::V2c,
            SecurityLevel::NoAuthNoPriv,
        )
        .expect("should find access entry");
    assert_eq!(
        access.read_view,
        b"long_view".to_vec(),
        "should prefer longer context prefix"
    );
}

#[test]
fn test_vacm_access_prefers_higher_security_level() {
    // Tier 4: Higher securityLevel should be preferred
    let mut config = VacmConfig::new();

    // Add entry with NoAuthNoPriv
    config.add_access(VacmAccessEntry {
        group_name: b"test_group".to_vec(),
        context_prefix: Vec::new(),
        security_model: SecurityModel::Any,
        security_level: SecurityLevel::NoAuthNoPriv,
        context_match: ContextMatch::Exact,
        read_view: b"noauth_view".to_vec(),
        write_view: Vec::new(),
        notify_view: Vec::new(),
    });

    // Add entry with AuthNoPriv
    config.add_access(VacmAccessEntry {
        group_name: b"test_group".to_vec(),
        context_prefix: Vec::new(),
        security_model: SecurityModel::Any,
        security_level: SecurityLevel::AuthNoPriv,
        context_match: ContextMatch::Exact,
        read_view: b"auth_view".to_vec(),
        write_view: Vec::new(),
        notify_view: Vec::new(),
    });

    // Add entry with AuthPriv
    config.add_access(VacmAccessEntry {
        group_name: b"test_group".to_vec(),
        context_prefix: Vec::new(),
        security_model: SecurityModel::Any,
        security_level: SecurityLevel::AuthPriv,
        context_match: ContextMatch::Exact,
        read_view: b"authpriv_view".to_vec(),
        write_view: Vec::new(),
        notify_view: Vec::new(),
    });

    // Query with AuthPriv - should get the AuthPriv entry (highest matching)
    let access = config
        .get_access(
            b"test_group",
            b"",
            SecurityModel::V2c,
            SecurityLevel::AuthPriv,
        )
        .expect("should find access entry");
    assert_eq!(
        access.read_view,
        b"authpriv_view".to_vec(),
        "should prefer higher security level"
    );
}

#[test]
fn test_vacm_access_preference_tier_ordering() {
    // Test that tier 1 takes precedence over tier 2, which takes precedence
    // over tier 3, which takes precedence over tier 4.
    let mut config = VacmConfig::new();

    // Entry: Any model, prefix match, short prefix, high security
    config.add_access(VacmAccessEntry {
        group_name: b"test_group".to_vec(),
        context_prefix: b"ctx".to_vec(),
        security_model: SecurityModel::Any,
        security_level: SecurityLevel::AuthPriv, // highest security
        context_match: ContextMatch::Prefix,
        read_view: b"any_prefix_short_high".to_vec(),
        write_view: Vec::new(),
        notify_view: Vec::new(),
    });

    // Entry: Specific model, prefix match, short prefix, low security
    // Tier 1 (specific model) should beat tier 4 (high security)
    config.add_access(VacmAccessEntry {
        group_name: b"test_group".to_vec(),
        context_prefix: b"ctx".to_vec(),
        security_model: SecurityModel::V2c,
        security_level: SecurityLevel::NoAuthNoPriv,
        context_match: ContextMatch::Prefix,
        read_view: b"v2c_prefix_short_low".to_vec(),
        write_view: Vec::new(),
        notify_view: Vec::new(),
    });

    // Query - specific model (V2c) should win over Any even though Any has higher security
    let access = config
        .get_access(
            b"test_group",
            b"ctx_test",
            SecurityModel::V2c,
            SecurityLevel::AuthPriv,
        )
        .expect("should find access entry");
    assert_eq!(
        access.read_view,
        b"v2c_prefix_short_low".to_vec(),
        "tier 1 (specific model) should take precedence over tier 4 (security level)"
    );
}

#[test]
fn test_vacm_access_preference_context_match_over_prefix_length() {
    // Tier 2 (exact match) should beat tier 3 (longer prefix)
    let mut config = VacmConfig::new();

    // Entry: prefix match with longer prefix
    config.add_access(VacmAccessEntry {
        group_name: b"test_group".to_vec(),
        context_prefix: b"context".to_vec(),
        security_model: SecurityModel::Any,
        security_level: SecurityLevel::NoAuthNoPriv,
        context_match: ContextMatch::Prefix,
        read_view: b"long_prefix_view".to_vec(),
        write_view: Vec::new(),
        notify_view: Vec::new(),
    });

    // Entry: exact match with shorter prefix
    config.add_access(VacmAccessEntry {
        group_name: b"test_group".to_vec(),
        context_prefix: b"ctx".to_vec(),
        security_model: SecurityModel::Any,
        security_level: SecurityLevel::NoAuthNoPriv,
        context_match: ContextMatch::Exact,
        read_view: b"short_exact_view".to_vec(),
        write_view: Vec::new(),
        notify_view: Vec::new(),
    });

    // Query with "ctx" - exact match should win even though it's shorter
    let access = config
        .get_access(
            b"test_group",
            b"ctx",
            SecurityModel::V2c,
            SecurityLevel::NoAuthNoPriv,
        )
        .expect("should find access entry");
    assert_eq!(
        access.read_view,
        b"short_exact_view".to_vec(),
        "tier 2 (exact match) should take precedence over tier 3 (longer prefix)"
    );
}

#[test]
fn test_vacm_access_preference_prefix_length_over_security() {
    // Tier 3 (longer prefix) should beat tier 4 (higher security)
    let mut config = VacmConfig::new();

    // Entry: short prefix with high security
    config.add_access(VacmAccessEntry {
        group_name: b"test_group".to_vec(),
        context_prefix: b"ctx".to_vec(),
        security_model: SecurityModel::Any,
        security_level: SecurityLevel::AuthPriv,
        context_match: ContextMatch::Prefix,
        read_view: b"short_high_sec".to_vec(),
        write_view: Vec::new(),
        notify_view: Vec::new(),
    });

    // Entry: longer prefix with low security
    config.add_access(VacmAccessEntry {
        group_name: b"test_group".to_vec(),
        context_prefix: b"ctx_test".to_vec(),
        security_model: SecurityModel::Any,
        security_level: SecurityLevel::NoAuthNoPriv,
        context_match: ContextMatch::Prefix,
        read_view: b"long_low_sec".to_vec(),
        write_view: Vec::new(),
        notify_view: Vec::new(),
    });

    // Query - longer prefix should win even though short prefix has higher security
    let access = config
        .get_access(
            b"test_group",
            b"ctx_test_suffix",
            SecurityModel::V2c,
            SecurityLevel::AuthPriv,
        )
        .expect("should find access entry");
    assert_eq!(
        access.read_view,
        b"long_low_sec".to_vec(),
        "tier 3 (longer prefix) should take precedence over tier 4 (security level)"
    );
}

#[test]
fn test_vacm_access_all_tiers_combined() {
    // Test with multiple entries that differ in all tiers
    let mut config = VacmConfig::new();

    // Entry 1: Any, prefix, short, NoAuth
    config.add_access(VacmAccessEntry {
        group_name: b"test_group".to_vec(),
        context_prefix: b"a".to_vec(),
        security_model: SecurityModel::Any,
        security_level: SecurityLevel::NoAuthNoPriv,
        context_match: ContextMatch::Prefix,
        read_view: b"entry1".to_vec(),
        write_view: Vec::new(),
        notify_view: Vec::new(),
    });

    // Entry 2: V2c (specific), exact, short, NoAuth - should win for "a" context
    config.add_access(VacmAccessEntry {
        group_name: b"test_group".to_vec(),
        context_prefix: b"a".to_vec(),
        security_model: SecurityModel::V2c,
        security_level: SecurityLevel::NoAuthNoPriv,
        context_match: ContextMatch::Exact,
        read_view: b"entry2".to_vec(),
        write_view: Vec::new(),
        notify_view: Vec::new(),
    });

    let access = config
        .get_access(
            b"test_group",
            b"a",
            SecurityModel::V2c,
            SecurityLevel::NoAuthNoPriv,
        )
        .expect("should find access entry");
    assert_eq!(
        access.read_view,
        b"entry2".to_vec(),
        "specific model + exact match should win"
    );
}

#[test]
fn test_vacm_access_exact_wins_regardless_of_insertion_order() {
    // Add exact first, prefix second - exact should still win
    let mut config = VacmConfig::new();

    config.add_access(VacmAccessEntry {
        group_name: b"test_group".to_vec(),
        context_prefix: b"ctx".to_vec(),
        security_model: SecurityModel::Any,
        security_level: SecurityLevel::NoAuthNoPriv,
        context_match: ContextMatch::Exact,
        read_view: b"exact_view".to_vec(),
        write_view: Vec::new(),
        notify_view: Vec::new(),
    });

    config.add_access(VacmAccessEntry {
        group_name: b"test_group".to_vec(),
        context_prefix: b"ctx".to_vec(),
        security_model: SecurityModel::Any,
        security_level: SecurityLevel::NoAuthNoPriv,
        context_match: ContextMatch::Prefix,
        read_view: b"prefix_view".to_vec(),
        write_view: Vec::new(),
        notify_view: Vec::new(),
    });

    let access = config
        .get_access(
            b"test_group",
            b"ctx",
            SecurityModel::V2c,
            SecurityLevel::NoAuthNoPriv,
        )
        .expect("should find access entry");
    assert_eq!(
        access.read_view,
        b"exact_view".to_vec(),
        "exact match should win regardless of insertion order"
    );
}

#[test]
fn test_vacm_access_higher_security_wins_regardless_of_insertion_order() {
    // Add higher security first, lower second - higher should still win
    let mut config = VacmConfig::new();

    config.add_access(VacmAccessEntry {
        group_name: b"test_group".to_vec(),
        context_prefix: Vec::new(),
        security_model: SecurityModel::Any,
        security_level: SecurityLevel::AuthPriv,
        context_match: ContextMatch::Exact,
        read_view: b"authpriv_view".to_vec(),
        write_view: Vec::new(),
        notify_view: Vec::new(),
    });

    config.add_access(VacmAccessEntry {
        group_name: b"test_group".to_vec(),
        context_prefix: Vec::new(),
        security_model: SecurityModel::Any,
        security_level: SecurityLevel::NoAuthNoPriv,
        context_match: ContextMatch::Exact,
        read_view: b"noauth_view".to_vec(),
        write_view: Vec::new(),
        notify_view: Vec::new(),
    });

    let access = config
        .get_access(
            b"test_group",
            b"",
            SecurityModel::V2c,
            SecurityLevel::AuthPriv,
        )
        .expect("should find access entry");
    assert_eq!(
        access.read_view,
        b"authpriv_view".to_vec(),
        "higher security level should win regardless of insertion order"
    );
}

