use aeromessage::reactions::{AnnotationRow, decode_target, prefixed_forms, reactions_for};

#[test]
fn test_decode_target_participant_indexed() {
    assert_eq!(decode_target("p:0/ABC-123"), Some("ABC-123".to_string()));
    assert_eq!(decode_target("p:1/XYZ"), Some("XYZ".to_string()));
}

#[test]
fn test_decode_target_participant_no_slash() {
    assert_eq!(decode_target("p:noslash"), None);
}

#[test]
fn test_decode_target_bare_participant() {
    assert_eq!(decode_target("bp:GUID-42"), Some("GUID-42".to_string()));
}

#[test]
fn test_decode_target_raw() {
    assert_eq!(decode_target("PLAIN-GUID"), Some("PLAIN-GUID".to_string()));
}

#[test]
fn test_prefixed_forms_per_guid() {
    let guids = vec!["g1".to_string(), "g2".to_string()];
    let forms = prefixed_forms(&guids);
    assert_eq!(
        forms,
        vec![
            "p:0/g1".to_string(),
            "p:1/g1".to_string(),
            "bp:g1".to_string(),
            "p:0/g2".to_string(),
            "p:1/g2".to_string(),
            "bp:g2".to_string(),
        ]
    );
}

#[test]
fn test_reactions_for_filters_and_orders() {
    let annos = vec![
        AnnotationRow {
            assoc_guid: "p:0/target".to_string(),
            code: 2000,
            is_from_me: false,
            sender: Some("+15551234567".to_string()),
        },
        AnnotationRow {
            assoc_guid: "bp:other".to_string(),
            code: 2001,
            is_from_me: true,
            sender: None,
        },
        AnnotationRow {
            assoc_guid: "target".to_string(),
            code: 9999,
            is_from_me: true,
            sender: None,
        },
        AnnotationRow {
            assoc_guid: "bp:target".to_string(),
            code: 2003,
            is_from_me: true,
            sender: None,
        },
    ];
    let reactions = reactions_for(&annos, "target");
    assert_eq!(reactions.len(), 2);
    assert_eq!(reactions[0].emoji, "❤️");
    assert_eq!(reactions[0].sender, Some("+15551234567".to_string()));
    assert_eq!(reactions[1].emoji, "😂");
    assert!(reactions[1].is_from_me);
}
