use codex_native::{is_semver, InitError, LoadAction, LoadEvent, Phase, ShimModule, VERSION_ATTRIBUTE};

fn load(m: &mut ShimModule) -> LoadAction {
    match m.step(LoadEvent::LoadRequested) {
        LoadAction::Register(_) => m.step(LoadEvent::RegistrationSucceeded),
        other => other,
    }
}

#[test]
fn declared_version_is_exposed() {
    let mut m = ShimModule::new("1.4.0");
    assert_eq!(m.phase(), Phase::Uninitialized);
    assert!(m.attributes().is_empty());
    match m.step(LoadEvent::LoadRequested) {
        LoadAction::Register(a) => {
            assert_eq!(a.name, "__version__");
            assert_eq!(a.value, "1.4.0");
        }
        other => panic!("unexpected action {:?}", other),
    }
    assert_eq!(m.phase(), Phase::Registering);
    assert!(matches!(m.step(LoadEvent::RegistrationSucceeded), LoadAction::Ready));
    assert_eq!(m.phase(), Phase::Initialized);
    assert_eq!(m.get_attribute("__version__"), Some("1.4.0".to_string()));
}

#[test]
fn failed_registration_aborts_and_registers_nothing() {
    let mut m = ShimModule::new("1.4.0");
    assert!(matches!(m.step(LoadEvent::LoadRequested), LoadAction::Register(_)));
    assert!(matches!(
        m.step(LoadEvent::RegistrationFailed),
        LoadAction::Abort(InitError::RegistrationFailed)
    ));
    assert_eq!(m.phase(), Phase::Failed);
    assert!(m.attributes().is_empty());
    assert_eq!(m.get_attribute(VERSION_ATTRIBUTE), None);
    assert!(matches!(
        m.step(LoadEvent::LoadRequested),
        LoadAction::Abort(InitError::RegistrationFailed)
    ));
    assert!(m.attributes().is_empty());
}

#[test]
fn loading_twice_keeps_the_value() {
    let mut m = ShimModule::new("2.0.1-beta.3");
    assert!(matches!(load(&mut m), LoadAction::Ready));
    let first = m.get_attribute(VERSION_ATTRIBUTE);
    assert!(matches!(load(&mut m), LoadAction::Ready));
    let second = m.get_attribute(VERSION_ATTRIBUTE);
    assert_eq!(first, Some("2.0.1-beta.3".to_string()));
    assert_eq!(first, second);
    assert_eq!(m.attributes().len(), 1);
}

#[test]
fn only_the_version_attribute_is_registered() {
    let mut m = ShimModule::new("0.0.0");
    load(&mut m);
    let attrs = m.attributes();
    assert_eq!(attrs.len(), 1);
    assert_eq!(attrs[0].name, "__version__");
    assert_eq!(attrs[0].value, "0.0.0");
    assert_eq!(m.get_attribute("version"), None);
    assert_eq!(m.get_attribute("__doc__"), None);
    assert_eq!(m.get_attribute(""), None);
}

#[test]
fn loaded_version_is_in_semver_format() {
    let mut m = ShimModule::new("3.11.7-rc.1");
    load(&mut m);
    let v = m.get_attribute(VERSION_ATTRIBUTE).unwrap();
    assert!(!v.is_empty());
    assert!(is_semver(&v));
}

#[test]
fn out_of_order_events_are_ignored() {
    let mut m = ShimModule::new("1.0.0");
    assert!(matches!(m.step(LoadEvent::RegistrationSucceeded), LoadAction::Ignored));
    assert!(matches!(m.step(LoadEvent::RegistrationFailed), LoadAction::Ignored));
    assert_eq!(m.phase(), Phase::Uninitialized);
    assert!(matches!(m.step(LoadEvent::LoadRequested), LoadAction::Register(_)));
    assert!(matches!(m.step(LoadEvent::LoadRequested), LoadAction::Ignored));
    assert_eq!(m.phase(), Phase::Registering);
    assert!(m.attributes().is_empty());
    assert!(matches!(m.step(LoadEvent::RegistrationSucceeded), LoadAction::Ready));
    assert!(matches!(m.step(LoadEvent::RegistrationFailed), LoadAction::Ignored));
    assert!(matches!(m.step(LoadEvent::RegistrationSucceeded), LoadAction::Ignored));
    assert_eq!(m.get_attribute(VERSION_ATTRIBUTE), Some("1.0.0".to_string()));
}
