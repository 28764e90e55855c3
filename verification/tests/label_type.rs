use emukc_bootstrap::label_type::{extract_label_type, release_month};

fn on(date: &str) -> Option<&str> {
    Some(date)
}

#[test]
fn period_letter_decides_the_label_type() {
    for (wiki_id, expected) in [("Bd1", 2), ("Bw1", 3), ("Bm1", 6), ("Bq11", 7)] {
        assert_eq!(extract_label_type(wiki_id, None), expected, "{wiki_id}");
    }
}

#[test]
fn yearly_quests_take_their_month_from_the_release_date() {
    for (wiki_id, date, expected) in [
        ("By13", "2024-01-25", 101),
        ("By1", "2020-02-07", 102),
        ("Cy12", "2024-04-10", 104),
        ("Cy1", "2020-10-16", 110),
        ("By14", "2024-05-29", 105),
        ("By15", "2024-09-24", 109),
        ("Cy13", "2024-06-27", 106),
        ("Cy14", "2024-07-27", 107),
        ("Cy15", "2024-09-24", 109),
        ("Cy16", "2024-10-18", 110),
    ] {
        assert_eq!(extract_label_type(wiki_id, on(date)), expected, "{wiki_id}");
    }
}

#[test]
fn categories_without_a_table_are_no_longer_oneshot() {
    for (wiki_id, date, expected) in
        [("Dy1", "2020-02-07", 102), ("Fy10", "2023-01-20", 101), ("Gy2", "2020-11-13", 111)]
    {
        assert_eq!(extract_label_type(wiki_id, on(date)), expected, "{wiki_id}");
    }
}

#[test]
fn by5_keeps_its_july_label_against_its_september_release() {
    assert_eq!(extract_label_type("By5", on("2020-09-17")), 107);
}

#[test]
fn a_yearly_quest_without_a_release_date_stays_on_the_yearly_tab() {
    let label = extract_label_type("By16", None);
    assert_eq!(label, 101);
    assert!((101..=112).contains(&label));
}

#[test]
fn a_malformed_release_date_does_not_produce_an_out_of_range_label() {
    for date in ["2024", "2024-13-01", "2024-00-01", "not-a-date", ""] {
        let label = extract_label_type("Cy99", on(date));
        assert!((101..=112).contains(&label), "{date} gave {label}");
    }
}

#[test]
fn seasonal_and_unknown_period_letters_stay_at_one() {
    for wiki_id in ["Cs1", "Cs5", "A1", "X"] {
        assert_eq!(extract_label_type(wiki_id, on("2016-08-31")), 1, "{wiki_id}");
    }
}

#[test]
fn release_month_reads_the_second_field() {
    assert_eq!(release_month(Some("2024-07-01")), Some(7));
    assert_eq!(release_month(Some("2024-+7-01")), Some(7));
    assert_eq!(release_month(Some("2024-13-01")), None);
    assert_eq!(release_month(Some("2024")), None);
    assert_eq!(release_month(None), None);
}

#[test]
fn a_one_byte_id_is_oneshot_but_a_one_char_multibyte_id_is_not_short() {
    assert_eq!(extract_label_type("y", on("2020-05-01")), 1);
    // "ｙ" is one character but three bytes; it has no ASCII period letter.
    assert_eq!(extract_label_type("ｙ", on("2020-05-01")), 1);
    assert_eq!(extract_label_type("yy", on("2020-05-01")), 1);
    assert_eq!(extract_label_type("Xy", on("2020-05-01")), 105);
}
