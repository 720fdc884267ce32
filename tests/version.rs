use selene::error_model::{validate_plugin, LoadError, PluginCall, ResolvedSymbols};
use selene::version::{current_api_version, ErrorModelAPIVersion, VersionError};

fn word(reserved: u8, major: u8, minor: u8, patch: u8) -> u64 {
    ((reserved as u64) << 24) | ((major as u64) << 16) | ((minor as u64) << 8) | patch as u64
}

fn all_symbols() -> ResolvedSymbols {
    ResolvedSymbols {
        init: true,
        exit: true,
        shot_start: true,
        shot_end: true,
        handle_operations: true,
        dump_simulator_state: true,
        get_metrics: true,
        get_simulator_metrics: true,
    }
}

#[test]
fn version_word_unpacks_big_to_small() {
    let v = ErrorModelAPIVersion::from(0x01020304u64);
    assert_eq!((v.reserved, v.major, v.minor, v.patch), (1, 2, 3, 4));
    assert_eq!(u64::from(v), 0x01020304);
    let cur = current_api_version();
    assert_eq!(u64::from(cur), 0x00000200);
}

#[test]
fn minor_mismatch_is_refused() {
    let v = ErrorModelAPIVersion::from(word(0, 0, 3, 0));
    assert_eq!(v.validate(), Err(VersionError::MinorMismatch { expected: 2, found: 3 }));
    assert_eq!(
        validate_plugin(Some(word(0, 0, 3, 0)), all_symbols()),
        Err(LoadError::Version(VersionError::MinorMismatch { expected: 2, found: 3 }))
    );
}

#[test]
fn patch_is_unconstrained() {
    let v = ErrorModelAPIVersion::from(word(0, 0, 2, 99));
    assert_eq!(v.validate(), Ok(()));
    let loaded = validate_plugin(Some(word(0, 0, 2, 99)), all_symbols()).unwrap();
    assert_eq!(loaded.patch, 99);
}

#[test]
fn reserved_and_major_are_checked() {
    assert_eq!(
        ErrorModelAPIVersion::from(word(1, 0, 2, 0)).validate(),
        Err(VersionError::NonZeroReserved(1))
    );
    assert_eq!(
        ErrorModelAPIVersion::from(word(0, 1, 2, 0)).validate(),
        Err(VersionError::MajorMismatch { expected: 0, found: 1 })
    );
}

#[test]
fn mandatory_symbols_are_required() {
    assert_eq!(validate_plugin(None, all_symbols()), Err(LoadError::MissingVersionQuery));
    let mut s = all_symbols();
    s.shot_end = false;
    assert_eq!(
        validate_plugin(Some(word(0, 0, 2, 0)), s),
        Err(LoadError::MissingSymbol(PluginCall::ShotEnd))
    );
    let mut s = all_symbols();
    s.exit = false;
    s.dump_simulator_state = false;
    s.get_metrics = false;
    s.get_simulator_metrics = false;
    assert!(validate_plugin(Some(word(0, 0, 2, 0)), s).is_ok());
    let mut s = all_symbols();
    s.init = false;
    s.handle_operations = false;
    assert_eq!(
        validate_plugin(Some(word(0, 0, 2, 0)), s),
        Err(LoadError::MissingSymbol(PluginCall::Init))
    );
}
