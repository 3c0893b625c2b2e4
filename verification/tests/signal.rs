use mac_key_remapper::signal::{classify, pending_events, MalformedSignal, RawEvent};

#[test]
fn classify_activation_line() {
    assert_eq!(classify("CAPS_LOCK"), Ok(RawEvent::Activation));
}

#[test]
fn classify_trigger_line() {
    assert_eq!(classify("FN:h"), Ok(RawEvent::TriggerCandidate('h')));
    assert_eq!(classify("FN::"), Ok(RawEvent::TriggerCandidate(':')));
    assert_eq!(classify("FN: "), Ok(RawEvent::TriggerCandidate(' ')));
}

#[test]
fn classify_trigger_line_takes_first_character_only() {
    assert_eq!(classify("FN:hello"), Ok(RawEvent::TriggerCandidate('h')));
}

#[test]
fn classify_trigger_line_with_wide_character() {
    assert_eq!(classify("FN:\u{e9}t\u{e9}"), Ok(RawEvent::TriggerCandidate('\u{e9}')));
    assert_eq!(classify("FN:\u{1f600}"), Ok(RawEvent::TriggerCandidate('\u{1f600}')));
}

#[test]
fn classify_prefix_without_character_is_malformed() {
    assert_eq!(classify("FN:"), Err(MalformedSignal));
}

#[test]
fn classify_unknown_lines_are_malformed() {
    assert_eq!(classify(""), Err(MalformedSignal));
    assert_eq!(classify("caps_lock"), Err(MalformedSignal));
    assert_eq!(classify("CAPS_LOCK "), Err(MalformedSignal));
    assert_eq!(classify(" CAPS_LOCK"), Err(MalformedSignal));
    assert_eq!(classify("CAPS_LOC"), Err(MalformedSignal));
    assert_eq!(classify("CAPS_LOCKS"), Err(MalformedSignal));
    assert_eq!(classify("FN"), Err(MalformedSignal));
    assert_eq!(classify("fn:h"), Err(MalformedSignal));
    assert_eq!(classify("F:Nh"), Err(MalformedSignal));
    assert_eq!(classify("XFN:h"), Err(MalformedSignal));
    assert_eq!(classify("SHIFT"), Err(MalformedSignal));
}

#[test]
fn pending_events_of_empty_content() {
    assert_eq!(pending_events(""), Vec::<RawEvent>::new());
}

#[test]
fn pending_events_keeps_order() {
    assert_eq!(
        pending_events("CAPS_LOCK\nFN:h\nFN:z\nCAPS_LOCK\n"),
        vec![
            RawEvent::Activation,
            RawEvent::TriggerCandidate('h'),
            RawEvent::TriggerCandidate('z'),
            RawEvent::Activation,
        ]
    );
}

#[test]
fn pending_events_drops_malformed_lines() {
    assert_eq!(
        pending_events("noise\nFN:\nCAPS_LOCK\n\n\nFN:a\nCAPS LOCK\n"),
        vec![RawEvent::Activation, RawEvent::TriggerCandidate('a')]
    );
    assert_eq!(pending_events("\n\n\n"), Vec::<RawEvent>::new());
    assert_eq!(pending_events("noise"), Vec::<RawEvent>::new());
}

#[test]
fn pending_events_reads_unterminated_last_line() {
    assert_eq!(
        pending_events("FN:a\nCAPS_LOCK"),
        vec![RawEvent::TriggerCandidate('a'), RawEvent::Activation]
    );
    assert_eq!(pending_events("FN:q"), vec![RawEvent::TriggerCandidate('q')]);
}

#[test]
fn pending_events_accepts_carriage_return_line_endings() {
    assert_eq!(
        pending_events("CAPS_LOCK\r\nFN:h\r\n"),
        vec![RawEvent::Activation, RawEvent::TriggerCandidate('h')]
    );
}

#[test]
fn pending_events_strips_one_carriage_return_only() {
    // Two carriage returns before the line feed leave one in the line.
    assert_eq!(pending_events("CAPS_LOCK\r\r\n"), Vec::<RawEvent>::new());
    // A carriage return that no line feed follows belongs to the line.
    assert_eq!(pending_events("CAPS_LOCK\r"), Vec::<RawEvent>::new());
    assert_eq!(pending_events("CAPS_LOCK\rFN:h\n"), Vec::<RawEvent>::new());
    // A trigger line may carry the carriage return as its character.
    assert_eq!(pending_events("FN:\r"), vec![RawEvent::TriggerCandidate('\r')]);
    assert_eq!(pending_events("FN:\r\n"), Vec::<RawEvent>::new());
    assert_eq!(pending_events("FN:\r\r\n"), vec![RawEvent::TriggerCandidate('\r')]);
}

#[test]
fn pending_events_agrees_with_line_by_line_classification() {
    let contents = [
        "",
        "\n",
        "\r\n",
        "\r",
        "CAPS_LOCK",
        "CAPS_LOCK\n",
        "CAPS_LOCK\n\n",
        "\nCAPS_LOCK",
        "CAPS_LOCK\r\nFN:x\r\nFN:\r\nbad\r\n",
        "FN:a\nFN:b\nFN:c",
        "FN:\u{e9}\nFN:\u{4e2d}\u{6587}\n",
        "CAPS_LOCK\rCAPS_LOCK\n",
        "FN:h\n\r\nFN:h\r",
    ];
    for content in contents {
        let mut expected = Vec::new();
        for line in content.lines() {
            if let Ok(event) = classify(line) {
                expected.push(event);
            }
        }
        assert_eq!(pending_events(content), expected, "content {:?}", content);
    }
}

#[test]
fn appended_signals_are_read_after_earlier_ones() {
    let earlier = "FN:a\nCAPS_LOCK\n";
    let later = "junk\nFN:b\n";
    let mut expected = pending_events(earlier);
    expected.extend(pending_events(later));
    assert_eq!(pending_events(&format!("{}{}", earlier, later)), expected);
}
