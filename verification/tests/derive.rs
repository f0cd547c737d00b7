//! Tests for an event type whose schema version and source are configured per
//! variant.

use sourcerer::testing::CustomEvent;
use sourcerer::Event;

#[test]
fn derive_macro_configurable_version_and_source() {
    assert_eq!(CustomEvent::Something.event_version(), 7);
    assert_eq!(CustomEvent::Something.event_source(), "urn:custom");
    assert_eq!(CustomEvent::Something.event_type(), "Something");

    // Variant override
    assert_eq!(CustomEvent::Else.event_version(), 9);
    assert_eq!(CustomEvent::Else.event_source(), "urn:variant");
    assert_eq!(CustomEvent::Else.event_type(), "Else");
}

#[test]
fn custom_event_payloads_round_trip() {
    let p = CustomEvent::Else.to_payload();
    assert!(matches!(
        CustomEvent::from_payload(&p),
        Ok(CustomEvent::Else)
    ));
    assert!(CustomEvent::from_payload("garbage").is_err());
}
