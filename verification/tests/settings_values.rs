//! The settings key, read at once, and the adapter markers.

use fwdslash::path::{eq_ignore_case, BareSlashMode};
use fwdslash::settings::{
    get_bare_slash_mode, get_bare_slash_override, get_bare_slash_root, is_disabled, LxssValues,
    SettingsValues, Snapshot,
};
use fwdslash::settings_write::StoredSettings;
use fwdslash::system::{adapter_outdated, adapter_version, AdapterMarker};

fn stored() -> Vec<Option<StoredSettings>> {
    let mut all = vec![None, Some(StoredSettings::default())];
    for pin in ["", "Ubuntu"] {
        for root in [None, Some("relative"), Some(r"C:\code")] {
            all.push(Some(StoredSettings {
                disabled: Some(1),
                bare_slash_mode: Some(1),
                bare_slash_distribution: Some(pin.to_string()),
                bare_slash_root: root.map(str::to_string),
                ..StoredSettings::default()
            }));
        }
    }
    all
}

#[test]
fn defaults_are_nothing_paused_and_nothing_pinned() {
    let defaults = SettingsValues::default();
    assert!(!defaults.disabled);
    assert_eq!(defaults.bare_slash_mode, BareSlashMode::DistributionList);
    assert_eq!(defaults.bare_slash_pinned, None);
    assert_eq!(defaults.bare_slash_root, None);
}

#[test]
fn read_yields_the_defaults_without_a_registry() {
    assert_eq!(SettingsValues::read(None), SettingsValues::default());
}

#[test]
fn the_single_value_getters_agree_with_the_batched_read() {
    for stored in stored() {
        let values = SettingsValues::read(stored.as_ref());
        assert_eq!(values.disabled, is_disabled(stored.as_ref()));
        assert_eq!(values.bare_slash_mode, get_bare_slash_mode(stored.as_ref()));
        assert_eq!(
            values.bare_slash_pinned.clone().unwrap_or_default(),
            get_bare_slash_override(stored.as_ref())
        );
        assert_eq!(values.bare_slash_root, get_bare_slash_root(stored.as_ref()));
        // A pin is either absent or non-empty; an empty stored value is no pin.
        assert_ne!(values.bare_slash_pinned.as_deref(), Some(""));
    }
}

#[test]
fn snapshot_carries_the_same_settings_it_read() {
    let names = vec!["Ubuntu".to_string(), "Debian".to_string(), "a/b".to_string()];
    for marked in [None, Some("ubuntu"), Some("Arch"), Some("a/b")] {
        let lxss = LxssValues {
            names: names.clone(),
            default_name: marked.map(str::to_string),
        };
        for stored in stored() {
            let snapshot = Snapshot::current(Some(&lxss), stored.as_ref());
            let values = SettingsValues::read(stored.as_ref());
            assert_eq!(snapshot.disabled, values.disabled);
            assert_eq!(snapshot.bare_slash_mode, values.bare_slash_mode);
            assert_eq!(snapshot.bare_slash_pinned, values.bare_slash_pinned);
            assert_eq!(snapshot.bare_slash_root, values.bare_slash_root);
            assert_eq!(snapshot.distributions, vec!["Ubuntu", "Debian"]);
            if let Some(default) = snapshot.default_distribution.as_deref() {
                assert!(
                    snapshot
                        .distributions
                        .iter()
                        .any(|name| eq_ignore_case(name, default)),
                    "the default distribution must be registered"
                );
            }
            assert_eq!(
                snapshot.default_distribution.is_some(),
                marked == Some("ubuntu")
            );
        }
    }
}

#[test]
fn an_uninstalled_adapter_has_no_version_and_is_never_outdated() {
    assert_eq!(adapter_version(None), None);
    assert!(!adapter_outdated(None, "0.0.3"));
    // A marker that is there, and what it says.
    let mut marker = AdapterMarker {
        state: Some("removed".to_string()),
        version: Some("0.0.2".to_string()),
    };
    assert!(!adapter_outdated(Some(&marker), "0.0.3"));
    marker.state = Some("installed".to_string());
    assert!(adapter_outdated(Some(&marker), "0.0.3"));
    assert!(!adapter_outdated(Some(&marker), "0.0.2"));
    marker.version = None;
    assert!(adapter_outdated(Some(&marker), "0.0.3"));
}
