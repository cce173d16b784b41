use eska_cli::history::{
    display_email, encoded_text, human_date, human_date_fields, iso_date, mailto_address, month_key,
    parse_u8, render_email, render_entry, render_history, short_id, DateText, HistoryEntry,
    HistoryLabels,
};

#[test]
fn arbitrary_bytes_have_an_explicit_reversible_encoding() {
    assert_eq!(
        encoded_text(b"raw-\xFF"),
        ("%72%61%77%2D%FF".to_owned(), "percent")
    );
    assert_eq!(short_id("1234567890abcdef"), "1234567890ab");
}

#[test]
fn interactive_email_is_a_safe_mailto_hyperlink() {
    let email = b"user+tag@example.invalid";
    assert_eq!(
        render_email(email, true),
        "\x1b]8;;mailto:user%2Btag@example.invalid\x1b\\user+tag@example.invalid\x1b]8;;\x1b\\"
    );
    assert_eq!(render_email(email, false), "user+tag@example.invalid");

    let unsafe_email = b"user\x1b@example.invalid";
    assert_eq!(mailto_address(unsafe_email), "user%1B@example.invalid");
    assert!(render_email(unsafe_email, true).contains(r"user\u{1b}@example.invalid"));
}

#[test]
fn short_identifiers_and_texts() {
    assert_eq!(short_id("abc"), "abc");
    assert_eq!(short_id("ёёёёёё"), "ёёёёёё");
    assert_eq!(short_id("ёёёёёёё"), "ёёёёёё");
    assert_eq!(encoded_text("Автор".as_bytes()), ("Автор".to_owned(), "utf-8"));
    assert_eq!(display_email(b"\xffa@b"), "\u{fffd}a@b");
    assert_eq!(mailto_address("я@x".as_bytes()), "%D1%8F@x");
}

#[test]
fn human_date_fields_keep_the_long_order_and_the_offset() {
    match human_date(1_787_647_089, 10_800) {
        DateText::Fields(fields) => {
            assert_eq!(fields.day, "25");
            assert_eq!(fields.month, 8);
            assert_eq!(fields.year, "2026");
            assert_eq!(fields.clock, "11:38:09");
            assert_eq!(fields.offset, "+03:00");
            assert_eq!(month_key(fields.month), "history-month-8");
        }
        DateText::Verbatim(text) => panic!("unexpected verbatim date {text}"),
    }
}

#[test]
fn machine_dates_are_strict_iso_8601() {
    assert_eq!(iso_date(1_767_225_600, 0), "2026-01-01T00:00:00+00:00");
    assert_eq!(iso_date(1_787_647_089, -18_000), "2026-08-25T03:38:09-05:00");
}

#[test]
fn date_fields_drop_leading_zeros_and_keep_odd_text_verbatim() {
    match human_date_fields("05|01|2026|00:00:00|+00:00".to_owned()) {
        DateText::Fields(fields) => {
            assert_eq!(fields.day, "5");
            assert_eq!(fields.month, 1);
        }
        DateText::Verbatim(text) => panic!("unexpected verbatim date {text}"),
    }
    for odd in ["1767225600", "05|13|2026|00:00:00|+00:00", "xx|01|2026|00:00:00|+00:00", "05|01|2026|00:00:00"] {
        match human_date_fields(odd.to_owned()) {
            DateText::Verbatim(text) => assert_eq!(text, odd),
            DateText::Fields(_) => panic!("{odd} has no date fields"),
        }
    }
    assert_eq!(parse_u8("+7"), Some(7));
    assert_eq!(parse_u8("255"), Some(255));
    assert_eq!(parse_u8("256"), None);
    assert_eq!(parse_u8("+"), None);
    assert_eq!(parse_u8(""), None);
    assert_eq!(parse_u8("0009"), Some(9));
}

fn labels() -> HistoryLabels {
    HistoryLabels {
        author: "Author".to_owned(),
        date: "Date".to_owned(),
        task: "Task".to_owned(),
        empty: "No commits".to_owned(),
    }
}

fn entry(task: Option<&str>) -> HistoryEntry {
    HistoryEntry {
        id: "1111111111111111111111111111111111111111".to_owned(),
        author_name: b"Author".to_vec(),
        author_email: b"author@example.invalid".to_vec(),
        subject: b"Subject".to_vec(),
        date: "January 1, 2026, 00:00:00 UTC+00:00".to_owned(),
        task: task.map(str::to_owned),
    }
}

#[test]
fn history_entries_are_compact_aligned_blocks() {
    assert_eq!(
        render_entry(&entry(Some("FI-1")), &labels(), false, false),
        "111111111111  Subject\n  Author: Author <author@example.invalid>\n  Date:   January 1, 2026, 00:00:00 UTC+00:00\n  Task:   FI-1"
    );
    let styled = render_entry(&entry(None), &labels(), true, true);
    assert!(styled.starts_with("\x1b[1;36m111111111111\x1b[0m  Subject"), "{styled:?}");
    assert!(styled.contains("mailto:author@example.invalid"), "{styled:?}");
    assert!(styled.ends_with("Task:   —"), "{styled:?}");
    let both = render_history(&vec![entry(None), entry(None)], &labels(), false, false);
    assert_eq!(both.matches("\n\n").count(), 1);
    assert_eq!(render_history(&Vec::new(), &labels(), false, false), "No commits");
}

#[test]
fn human_date_uses_localized_long_order_and_keeps_the_offset() {
    let DateText::Fields(fields) = human_date(1_787_647_089, 10_800) else {
        panic!("the date has its fields");
    };
    assert_eq!(month_key(fields.month), "history-month-8");
    // The translations of `history-month-8` and of the date pattern.
    let russian = format!("{} {} {}, {} UTC{}", fields.day, "августа", fields.year, fields.clock, fields.offset);
    let english = format!("{} {}, {}, {} UTC{}", "August", fields.day, fields.year, fields.clock, fields.offset);
    assert_eq!(russian, "25 августа 2026, 11:38:09 UTC+03:00");
    assert_eq!(english, "August 25, 2026, 11:38:09 UTC+03:00");
}
