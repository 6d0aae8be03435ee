use async_snmp::addr::SocketAddress;
use async_snmp::agent::registry::{default_handles, HandlerRegistry};
use async_snmp::agent::set_handler::{Resolution, SetAction, SetEvent, SetTransaction};
use async_snmp::agent::vacm::{
    AccessEntryBuilder, ContextMatch, SecurityModel, VacmAccessEntry, VacmBuilder, VacmConfig, View,
};
use async_snmp::error::ErrorStatus;
use async_snmp::handler::{RequestContext, SetResult};
use async_snmp::message::SecurityLevel;
use async_snmp::oid::Oid;
use async_snmp::pdu::{Pdu, PduType};
use async_snmp::value::Value;
use async_snmp::varbind::VarBind;
use async_snmp::version::Version;

fn entry(model: SecurityModel, view: &[u8]) -> VacmAccessEntry {
    VacmAccessEntry {
        group_name: b"g".to_vec(),
        context_prefix: Vec::new(),
        security_model: model,
        security_level: SecurityLevel::NoAuthNoPriv,
        context_match: ContextMatch::Exact,
        read_view: view.to_vec(),
        write_view: Vec::new(),
        notify_view: Vec::new(),
    }
}

#[test]
fn vacm_prefers_the_model_of_the_request_in_either_order() {
    let mut first = VacmConfig::new();
    first.add_access(entry(SecurityModel::Any, b"any"));
    first.add_access(entry(SecurityModel::V2c, b"v2c"));
    let mut second = VacmConfig::new();
    second.add_access(entry(SecurityModel::V2c, b"v2c"));
    second.add_access(entry(SecurityModel::Any, b"any"));
    for config in [&first, &second] {
        let chosen = config
            .get_access(b"g", b"", SecurityModel::V2c, SecurityLevel::NoAuthNoPriv)
            .unwrap();
        assert_eq!(chosen.read_view, b"v2c".to_vec());
        assert_eq!(chosen.security_model, SecurityModel::V2c);
        // a request under another model is served by the entry for any model
        let other = config
            .get_access(b"g", b"", SecurityModel::V1, SecurityLevel::NoAuthNoPriv)
            .unwrap();
        assert_eq!(other.read_view, b"any".to_vec());
    }
}

#[test]
fn vacm_of_equal_entries_the_last_is_chosen() {
    let mut config = VacmConfig::new();
    config.add_access(entry(SecurityModel::Any, b"one"));
    config.add_access(entry(SecurityModel::Any, b"two"));
    let chosen = config
        .get_access(b"g", b"", SecurityModel::Usm, SecurityLevel::AuthPriv)
        .unwrap();
    assert_eq!(chosen.read_view, b"two".to_vec());
    assert!(config.get_access(b"h", b"", SecurityModel::Usm, SecurityLevel::AuthPriv).is_none());
    assert!(config.get_access(b"g", b"ctx", SecurityModel::Usm, SecurityLevel::AuthPriv).is_none());
}

#[test]
fn view_grows_with_includes_and_shrinks_with_excludes() {
    let probes: Vec<Oid> = vec![
        Oid::from_slice(&[1, 3, 6, 1, 2, 1, 1, 1, 0]),
        Oid::from_slice(&[1, 3, 6, 1, 2, 1, 2, 2]),
        Oid::from_slice(&[1, 3, 6, 1, 4, 1, 9]),
        Oid::from_slice(&[1, 3]),
    ];
    let base = || {
        View::new()
            .include_subtree(Oid::from_slice(&[1, 3, 6, 1, 2, 1, 1]))
            .exclude(Oid::from_slice(&[1, 3, 6, 1, 2, 1, 1, 7]))
    };
    let with_include = base().include_subtree(Oid::from_slice(&[1, 3, 6, 1, 4]));
    let with_exclude = base().exclude(Oid::from_slice(&[1, 3, 6, 1, 2, 1, 1, 1]));
    for oid in &probes {
        if base().contains(oid) {
            assert!(with_include.contains(oid));
        }
        if with_exclude.contains(oid) {
            assert!(base().contains(oid));
        }
    }
    assert!(with_include.contains(&probes[2]) && !base().contains(&probes[2]));
    assert!(base().contains(&probes[0]) && !with_exclude.contains(&probes[0]));
}

#[test]
fn view_masks() {
    let view = View::new()
        .include_masked(Oid::from_slice(&[1, 3, 6, 1, 2, 1, 2, 2, 1, 0, 5]), vec![0xFF, 0xA0])
        .exclude_masked(Oid::from_slice(&[1, 3, 6, 1, 2, 1, 2, 2, 1, 9]), vec![0xFF, 0xC0]);
    // the mask leaves arc 9 free and fixes arc 10
    assert!(view.contains(&Oid::from_slice(&[1, 3, 6, 1, 2, 1, 2, 2, 1, 7, 5])));
    assert!(!view.contains(&Oid::from_slice(&[1, 3, 6, 1, 2, 1, 2, 2, 1, 7, 6])));
    assert!(!view.contains(&Oid::from_slice(&[1, 3, 6, 1, 2, 1, 2, 2, 1, 9, 5])));
    assert!(!view.contains(&Oid::from_slice(&[1, 3, 6, 1, 2, 1, 2, 2, 1, 7])));
    assert!(!View::default().contains(&Oid::from_slice(&[1, 3])));
}

#[test]
fn vacm_groups_and_views_are_replaced_by_name() {
    let mut config = VacmConfig::new();
    config.add_group(b"public", SecurityModel::V2c, b"old");
    config.add_group(b"public", SecurityModel::V2c, b"new");
    config.add_group(b"public", SecurityModel::Any, b"fallback");
    assert_eq!(config.get_group(SecurityModel::V2c, b"public"), Some(&b"new".to_vec()));
    assert_eq!(config.get_group(SecurityModel::Usm, b"public"), Some(&b"fallback".to_vec()));
    config.add_view(b"v", View::new().include_subtree(Oid::from_slice(&[1, 3, 6])));
    config.add_view(b"v", View::new().include_subtree(Oid::from_slice(&[1, 2])));
    assert!(!config.check_access(Some(&b"v"[..]), &Oid::from_slice(&[1, 3, 6, 1])));
    assert!(config.check_access(Some(&b"v"[..]), &Oid::from_slice(&[1, 2, 3])));
}

#[test]
fn access_entry_builder_defaults_and_setters() {
    let plain = AccessEntryBuilder::new(b"grp").build();
    assert_eq!(plain.group_name, b"grp".to_vec());
    assert_eq!(plain.security_model, SecurityModel::Any);
    assert_eq!(plain.security_level, SecurityLevel::NoAuthNoPriv);
    assert_eq!(plain.context_match, ContextMatch::Exact);
    assert!(plain.read_view.is_empty() && plain.write_view.is_empty());
    let full = AccessEntryBuilder::new(b"grp")
        .context_prefix(b"ctx")
        .security_model(SecurityModel::Usm)
        .security_level(SecurityLevel::AuthPriv)
        .context_match_prefix()
        .read_view(b"r")
        .write_view(b"w")
        .notify_view(b"n")
        .build();
    assert_eq!(full.context_prefix, b"ctx".to_vec());
    assert_eq!(full.security_model, SecurityModel::Usm);
    assert_eq!(full.security_level, SecurityLevel::AuthPriv);
    assert_eq!(full.context_match, ContextMatch::Prefix);
    assert_eq!(
        (full.read_view, full.write_view, full.notify_view),
        (b"r".to_vec(), b"w".to_vec(), b"n".to_vec())
    );
}

#[test]
fn request_context_resolves_group_and_views() {
    let vacm = VacmBuilder::new()
        .group(b"public", SecurityModel::V2c, b"readers")
        .access(b"readers", |a| a.read_view(b"all").write_view(b"none"))
        .view(b"all", |v| v.include_subtree(Oid::from_slice(&[1, 3, 6, 1])))
        .build();
    let mut ctx = RequestContext::new(
        SocketAddress::v4(127, 0, 0, 1, 161),
        Version::V2c,
        b"public".to_vec(),
        SecurityLevel::NoAuthNoPriv,
        Vec::new(),
        7,
        PduType::GetRequest,
    );
    assert_eq!(ctx.security_model, SecurityModel::V2c);
    ctx.resolve(&vacm);
    assert_eq!(ctx.group_name, Some(b"readers".to_vec()));
    assert_eq!(ctx.read_view, Some(b"all".to_vec()));
    assert_eq!(ctx.write_view, Some(b"none".to_vec()));
    let mut stranger = RequestContext::new(
        SocketAddress::v4(127, 0, 0, 1, 161),
        Version::V1,
        b"public".to_vec(),
        SecurityLevel::NoAuthNoPriv,
        Vec::new(),
        7,
        PduType::GetRequest,
    );
    stranger.resolve(&vacm);
    assert_eq!(stranger.group_name, None);
    assert_eq!(stranger.read_view, None);
}

#[test]
fn registry_finds_the_longest_prefix() {
    let mut registry = HandlerRegistry::new();
    let system = registry.register(Oid::from_slice(&[1, 3, 6, 1, 2, 1, 1]));
    let mib2 = registry.register(Oid::from_slice(&[1, 3, 6, 1, 2, 1]));
    let private = registry.register(Oid::from_slice(&[1, 3, 6, 1, 4, 1]));
    assert_eq!((system, mib2, private), (0, 1, 2));
    assert_eq!(registry.len(), 3);
    assert_eq!(registry.find_handler(&Oid::from_slice(&[1, 3, 6, 1, 2, 1, 1, 5, 0])), Some(system));
    assert_eq!(registry.find_handler(&Oid::from_slice(&[1, 3, 6, 1, 2, 1, 2, 1])), Some(mib2));
    assert_eq!(registry.find_handler(&Oid::from_slice(&[1, 3, 6, 1, 4, 1])), Some(private));
    assert_eq!(registry.find_handler(&Oid::from_slice(&[1, 3, 6, 1, 3])), None);
    // for GETNEXT an OID between the subtrees goes to the subtree that follows
    assert_eq!(registry.find_next_handler(&Oid::from_slice(&[1, 3, 6, 1, 3])), Some(private));
    assert_eq!(registry.find_next_handler(&Oid::from_slice(&[1, 3])), Some(mib2));
    assert_eq!(registry.find_next_handler(&Oid::from_slice(&[1, 3, 6, 1, 5])), None);
    assert!(default_handles(&Oid::from_slice(&[1, 3, 6]), &Oid::from_slice(&[1, 3, 6, 1])));
    assert!(default_handles(&Oid::from_slice(&[1, 3, 6]), &Oid::from_slice(&[1, 3, 5])));
    assert!(!default_handles(&Oid::from_slice(&[1, 3, 6]), &Oid::from_slice(&[1, 3, 7])));
}

fn set_request(n: u32) -> Pdu {
    let varbinds = (0..n)
        .map(|i| VarBind::new(Oid::from_slice(&[1, 3, 6, 1, 4, 1, 99, i]), Value::Integer(i as i32 + 1)))
        .collect();
    Pdu::new(PduType::SetRequest, 77, varbinds)
}

fn registry_for_enterprise() -> HandlerRegistry {
    let mut registry = HandlerRegistry::new();
    registry.register(Oid::from_slice(&[1, 3, 6, 1, 4, 1, 99]));
    registry
}

fn render(action: &SetAction) -> String {
    match action {
        SetAction::Test { index, handler } => format!("test {} by {}", index, handler),
        SetAction::Commit { index, handler } => format!("commit {} by {}", index, handler),
        SetAction::Undo { index, handler } => format!("undo {} by {}", index, handler),
        SetAction::Respond(pdu) => format!("respond {} at {}", pdu.error_status, pdu.error_index),
    }
}

fn run(tx: &mut SetTransaction, tests: &[SetResult], commits: &[SetResult]) -> Vec<String> {
    let mut trace = Vec::new();
    let mut action = tx.step(SetEvent::Start);
    loop {
        trace.push(render(&action));
        action = match action {
            SetAction::Test { index, .. } => tx.step(SetEvent::Tested(tests[index])),
            SetAction::Commit { index, .. } => tx.step(SetEvent::Committed(commits[index])),
            SetAction::Undo { .. } => tx.step(SetEvent::Undone),
            SetAction::Respond(_) => return trace,
        };
    }
}

#[test]
fn set_rolls_back_when_a_commit_fails() {
    let request = set_request(3);
    let registry = registry_for_enterprise();
    let mut tx = SetTransaction::begin(&request, Version::V2c, None, None, &registry);
    let ok = SetResult::Success;
    let trace = run(&mut tx, &[ok, ok, ok], &[ok, SetResult::CommitFailed, ok]);
    assert_eq!(
        trace,
        vec![
            "test 0 by 0",
            "test 1 by 0",
            "test 2 by 0",
            "commit 0 by 0",
            "commit 1 by 0",
            "undo 0 by 0",
            "respond 14 at 2",
        ]
    );
}

#[test]
fn set_undoes_in_reverse_order() {
    let request = set_request(4);
    let registry = registry_for_enterprise();
    let mut tx = SetTransaction::begin(&request, Version::V2c, None, None, &registry);
    let ok = SetResult::Success;
    let trace = run(&mut tx, &[ok; 4], &[ok, ok, ok, SetResult::ResourceUnavailable]);
    assert_eq!(
        trace[4..],
        [
            "commit 0 by 0",
            "commit 1 by 0",
            "commit 2 by 0",
            "commit 3 by 0",
            "undo 2 by 0",
            "undo 1 by 0",
            "undo 0 by 0",
            "respond 14 at 4",
        ]
    );
}

#[test]
fn set_commits_nothing_when_a_test_fails() {
    let request = set_request(3);
    let registry = registry_for_enterprise();
    let mut tx = SetTransaction::begin(&request, Version::V2c, None, None, &registry);
    let ok = SetResult::Success;
    let trace = run(&mut tx, &[ok, SetResult::WrongType, ok], &[ok, ok, ok]);
    assert_eq!(trace, vec!["test 0 by 0", "test 1 by 0", "respond 7 at 2"]);
    assert!(trace.iter().all(|a| !a.starts_with("commit")));
}

#[test]
fn set_succeeds_with_the_bindings_of_the_request() {
    let request = set_request(2);
    let registry = registry_for_enterprise();
    let mut tx = SetTransaction::begin(&request, Version::V2c, None, None, &registry);
    assert!(matches!(tx.step(SetEvent::Start), SetAction::Test { index: 0, handler: 0 }));
    assert!(matches!(
        tx.step(SetEvent::Tested(SetResult::Success)),
        SetAction::Test { index: 1, handler: 0 }
    ));
    assert!(matches!(
        tx.step(SetEvent::Tested(SetResult::Success)),
        SetAction::Commit { index: 0, handler: 0 }
    ));
    assert!(matches!(
        tx.step(SetEvent::Committed(SetResult::Success)),
        SetAction::Commit { index: 1, handler: 0 }
    ));
    match tx.step(SetEvent::Committed(SetResult::Success)) {
        SetAction::Respond(pdu) => {
            assert_eq!(pdu.pdu_type, PduType::Response);
            assert_eq!(pdu.request_id, 77);
            assert_eq!(pdu.error_status, 0);
            assert_eq!(pdu.error_index, 0);
            assert_eq!(pdu.varbinds, request.varbinds);
        }
        other => panic!("unexpected action {:?}", other),
    }
    // the transaction is over: any further event is answered with genErr
    match tx.step(SetEvent::Undone) {
        SetAction::Respond(pdu) => assert_eq!(pdu.error_status, ErrorStatus::GenErr.as_i32()),
        other => panic!("unexpected action {:?}", other),
    }
}

#[test]
fn set_without_handler_or_access() {
    let request = set_request(2);
    let empty = HandlerRegistry::new();
    let mut v2 = SetTransaction::begin(&request, Version::V2c, None, None, &empty);
    assert_eq!(run(&mut v2, &[], &[]), vec!["respond 17 at 1"]);
    let mut v1 = SetTransaction::begin(&request, Version::V1, None, None, &empty);
    assert_eq!(run(&mut v1, &[], &[]), vec!["respond 2 at 1"]);

    let registry = registry_for_enterprise();
    let mut vacm = VacmConfig::new();
    vacm.add_view(
        b"w",
        View::new().include_subtree(Oid::from_slice(&[1, 3, 6, 1, 4, 1, 99, 0])),
    );
    let ok = SetResult::Success;
    let mut denied = SetTransaction::begin(&request, Version::V2c, Some(&vacm), Some(&b"w"[..]), &registry);
    assert_eq!(run(&mut denied, &[ok, ok], &[ok, ok]), vec!["test 0 by 0", "respond 6 at 2"]);
    let mut denied_v1 =
        SetTransaction::begin(&request, Version::V1, Some(&vacm), Some(&b"w"[..]), &registry);
    assert_eq!(run(&mut denied_v1, &[ok, ok], &[ok, ok]), vec!["test 0 by 0", "respond 2 at 2"]);
    let mut no_view = SetTransaction::begin(&request, Version::V3, Some(&vacm), None, &registry);
    assert_eq!(run(&mut no_view, &[ok, ok], &[ok, ok]), vec!["respond 6 at 1"]);
}

#[test]
fn resolution_is_a_plain_value() {
    assert_ne!(Resolution::Denied, Resolution::NoHandler);
    assert_eq!(Resolution::Handler(3), Resolution::Handler(3));
}

#[test]
fn getnext_goes_on_behind_a_handler_that_has_nothing_more() {
    let mut registry = HandlerRegistry::new();
    let system = registry.register(Oid::from_slice(&[1, 3, 6, 1, 2, 1, 1]));
    let interfaces = registry.register(Oid::from_slice(&[1, 3, 6, 1, 2, 1, 2]));
    let private = registry.register(Oid::from_slice(&[1, 3, 6, 1, 4]));
    assert_eq!(registry.prefix(interfaces).arcs(), &[1, 3, 6, 1, 2, 1, 2]);

    assert_eq!(registry.find_following(&Oid::from_slice(&[1, 3])), Some(system));
    assert_eq!(registry.find_following(&Oid::from_slice(&[1, 3, 6, 1, 2, 1, 1])), Some(interfaces));
    assert_eq!(registry.find_following(&Oid::from_slice(&[1, 3, 6, 1, 2, 1, 1, 9])), Some(interfaces));
    assert_eq!(registry.find_following(&Oid::from_slice(&[1, 3, 6, 1, 4])), None);

    // The handler owns the OID: the search goes on from the OID.
    let probe = Oid::from_slice(&[1, 3, 6, 1, 2, 1, 1, 9, 0]);
    let (from, next) = registry.after_end(&probe, system);
    assert_eq!(from, probe);
    assert_eq!(next, Some(interfaces));

    // The handler follows the OID: the search goes on from its prefix.
    let probe = Oid::from_slice(&[1, 3, 6, 1, 2]);
    let (from, next) = registry.after_end(&probe, interfaces);
    assert_eq!(from, Oid::from_slice(&[1, 3, 6, 1, 2, 1, 2]));
    assert_eq!(next, Some(private));

    // Nothing is registered behind the last handler.
    let (from, next) = registry.after_end(&Oid::from_slice(&[1, 3, 6, 1, 4, 1, 9]), private);
    assert_eq!(from, Oid::from_slice(&[1, 3, 6, 1, 4, 1, 9]));
    assert_eq!(next, None);
}
