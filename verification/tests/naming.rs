use greycard_ui::naming::{
    expand, file_name, folders, safe, safe_within, tokens, with_tail, Day, Fields, PatternError, LONGEST,
    SEQ_WIDTH,
};

fn fields() -> Fields {
    Fields {
        day: Day {
            year: 2026,
            month: 9,
            day: 4,
        },
        name: "IMG_0042".into(),
        camera: "Canon EOS R5".into(),
        seq: 7,
    }
}

#[test]
fn every_token_fills() {
    let f = fields();
    assert_eq!(expand("{date}", &f).unwrap(), "2026-09-04");
    assert_eq!(expand("{yyyy}", &f).unwrap(), "2026");
    assert_eq!(expand("{mm}", &f).unwrap(), "09");
    assert_eq!(expand("{dd}", &f).unwrap(), "04");
    assert_eq!(expand("{name}", &f).unwrap(), "IMG_0042");
    assert_eq!(expand("{camera}", &f).unwrap(), "Canon EOS R5");
    assert_eq!(expand("{seq}", &f).unwrap(), "0007");
    // Literal text between them, as it is.
    assert_eq!(
        expand("{yyyy}{mm}{dd}_{camera} - {name}-{seq}!", &f).unwrap(),
        "20260904_Canon EOS R5 - IMG_0042-0007!"
    );
    // The width is a floor, not a cap.
    let big = Fields {
        seq: 123456,
        ..fields()
    };
    assert_eq!(expand("{seq}", &big).unwrap(), "123456");
    // No camera said: a word, not a hole in the name.
    let none = Fields {
        camera: " ".into(),
        ..fields()
    };
    assert_eq!(expand("{camera}", &none).unwrap(), "Unknown camera");
}

#[test]
fn a_pattern_with_no_token_is_its_own_text() {
    let f = fields();
    assert_eq!(expand("holiday", &f).unwrap(), "holiday");
    assert_eq!(expand("", &f).unwrap(), "");
    // The same name for every frame: the import tells them apart.
    assert_eq!(file_name("holiday", &f, "CR3").unwrap(), "holiday.CR3");
    // Nothing at all falls back to the source's own name.
    assert_eq!(file_name("", &f, "CR3").unwrap(), "IMG_0042.CR3");
    assert_eq!(folders("", &f).unwrap(), Vec::<String>::new());
}

#[test]
fn an_unknown_or_unclosed_token_is_refused() {
    let f = fields();
    assert_eq!(
        expand("{name}-{lens}", &f),
        Err(PatternError::Unknown("lens".into()))
    );
    assert_eq!(expand("{name", &f), Err(PatternError::Unclosed));
    // A token is spelled in lower case, as the hint shows it.
    assert!(expand("{DATE}", &f).is_err());
    assert!(
        PatternError::Unknown("lens".into())
            .message()
            .contains("{seq}")
    );
}

/// Two frames of one name from two folders of the card (the
/// counter wrapped at 9999, or two bodies): the same pattern
/// meets itself, and `{seq}` parts them.
#[test]
fn a_collision_is_made_unique_by_seq() {
    let a = Fields { seq: 1, ..fields() };
    let b = Fields { seq: 2, ..fields() };
    assert_eq!(
        file_name("{name}", &a, "CR3").unwrap(),
        file_name("{name}", &b, "CR3").unwrap()
    );
    let (na, nb) = (
        file_name("{name}-{seq}", &a, "CR3").unwrap(),
        file_name("{name}-{seq}", &b, "CR3").unwrap(),
    );
    assert_ne!(na, nb);
    assert_eq!(na, "IMG_0042-0001.CR3");
    assert_eq!(nb, "IMG_0042-0002.CR3");
}

#[test]
fn a_name_the_file_system_refuses_is_made_safe() {
    let f = Fields {
        name: "a<b>c:d\"e|f?g*h\u{7}".into(),
        camera: "Maker/Model\\II".into(),
        ..fields()
    };
    // Every refused character and the control: `_`.
    assert_eq!(
        file_name("{name}", &f, "CR3").unwrap(),
        "a_b_c_d_e_f_g_h_.CR3"
    );
    // A token's separator never makes a folder.
    assert_eq!(
        folders("{camera}/{date}", &f).unwrap(),
        vec!["Maker_Model_II".to_string(), "2026-09-04".to_string()]
    );
    assert_eq!(
        file_name("{camera}", &f, "jpg").unwrap(),
        "Maker_Model_II.jpg"
    );
    // Windows' devices, in any case and before any dot.
    for device in ["CON", "prn", "Aux", "nul", "COM1", "lpt9", "con.txt"] {
        let named = Fields {
            name: device.into(),
            ..fields()
        };
        let got = file_name("{name}", &named, "CR3").unwrap();
        assert!(got.starts_with('_'), "{device}: {got}");
    }
    // Not a device: a longer word, a COM with no digit.
    assert_eq!(safe("CONSOLE"), "CONSOLE");
    assert_eq!(safe("COMX"), "COMX");
    // Trailing dots and spaces go, a leading dot is not a hidden
    // file, and dots alone are not `.` or `..`.
    assert_eq!(safe("  shoot. . "), "shoot");
    assert_eq!(safe(".hidden"), "_hidden");
    assert_eq!(safe(".."), "");
    assert_eq!(
        folders("{yyyy}/../{mm}//./", &fields()).unwrap(),
        vec!["2026".to_string(), "09".to_string()]
    );
    // A name ending in dots before the extension keeps no dot run
    // a Windows file system would drop: the stem is trimmed first.
    let dotted = Fields {
        name: "last.".into(),
        ..fields()
    };
    assert_eq!(file_name("{name}", &dotted, "CR3").unwrap(), "last.CR3");
    // Long names are cut on a character's edge.
    let long = "é".repeat(300);
    let cut = safe(&long);
    assert!(cut.len() <= LONGEST && cut.chars().all(|c| c == 'é'));
}

/// 197 letters and `{seq}` run past the cut: the stem is cut, the
/// extension kept whole, and never inside a character.
#[test]
fn a_long_name_keeps_its_extension() {
    let pattern = format!("{}{{seq}}", "a".repeat(197));
    for seq in [1, 2] {
        let f = Fields { seq, ..fields() };
        let name = file_name(&pattern, &f, "CR3").unwrap();
        assert!(name.ends_with(".CR3"), "{name}");
        assert!(name.len() <= LONGEST, "{}", name.len());
    }
    // Where the stem's room allows, the digits survive.
    let f = Fields { seq: 7, ..fields() };
    let name = file_name(&format!("{}{{seq}}", "a".repeat(190)), &f, "CR3").unwrap();
    assert!(name.ends_with("0007.CR3"), "{name}");
    // A multibyte stem is cut on a character's edge.
    let wide = Fields {
        name: "é".repeat(150),
        ..fields()
    };
    let name = file_name("{name}", &wide, "jpeg").unwrap();
    assert!(name.ends_with(".jpeg") && name.len() <= LONGEST, "{name}");
    // A companion's longer tail is kept whole too.
    let c = with_tail(&"b".repeat(250), ".CR3.xmp");
    assert!(c.ends_with(".CR3.xmp") && c.len() <= LONGEST);
}

#[test]
fn a_day_reads_from_either_spelling() {
    let want = Some(Day {
        year: 2024,
        month: 8,
        day: 24,
    });
    assert_eq!(Day::from_exif("2024:08:24 15:32:39"), want);
    assert_eq!(Day::from_exif("2024-08-24 15:32:39"), want);
    assert_eq!(Day::from_exif("2024-08-24"), want);
    assert_eq!(Day::from_exif("    :  :     "), None);
    assert_eq!(Day::from_exif("2024:13:01"), None);
    assert_eq!(Day::from_exif("2024:08-24"), None);
    assert_eq!(Day::from_exif(""), None);
}

#[test]
fn the_errors_say_what_is_wrong() {
    assert_eq!(PatternError::Unclosed.message(), "a { with no } after it");
    assert!(PatternError::Unknown("lens".into())
        .message()
        .starts_with("{lens} is not a token; "));
    assert_eq!(file_name("{", &fields(), "CR3"), Err(PatternError::Unclosed));
    assert_eq!(
        folders("{x}/{name}", &fields()),
        Err(PatternError::Unknown("x".into()))
    );
    // The first fault is the one said.
    assert_eq!(
        expand("{x}{", &fields()),
        Err(PatternError::Unknown("x".into()))
    );
}

#[test]
fn a_counter_is_as_wide_as_it_needs() {
    assert_eq!(SEQ_WIDTH, 4);
    let f = Fields { seq: 12345, ..fields() };
    assert_eq!(expand("{seq}", &f).unwrap(), "12345");
    let f = Fields { seq: 0, ..fields() };
    assert_eq!(expand("{seq}", &f).unwrap(), "0000");
}

#[test]
fn a_token_adds_no_folder_and_a_safe_name_is_settled() {
    let f = Fields {
        name: "a/b\\c".into(),
        ..fields()
    };
    assert_eq!(folders("{name}", &f).unwrap(), vec!["a_b_c".to_string()]);
    for s in ["CON", "a.", " x ", ".y", "a:b", "plain"] {
        let once = safe(s);
        assert_eq!(safe(&once), once);
    }
}

#[test]
fn a_safe_name_fits_within_a_limit() {
    assert_eq!(safe_within("abcdef", 3), "abc");
    // The cut leaves no dot or space at the end.
    assert_eq!(safe_within("ab. cd", 4), "ab");
    assert_eq!(safe_within("con", 4), "_con");
    // The mark before a device's name is within the limit too.
    assert_eq!(safe_within("con", 3), "_co");
    let long = format!("CON.{}", "x".repeat(300));
    assert_eq!(safe(&long).len(), LONGEST);
    assert!(safe(&long).starts_with("_CON.x"));
    assert_eq!(with_tail("", ".CR3"), ".CR3");
}

#[test]
fn a_file_has_a_stem_whatever_its_extension_holds() {
    let f = Fields {
        name: "..".into(),
        ..fields()
    };
    assert_eq!(file_name("", &f, "CR3").unwrap(), "_.CR3");
    assert_eq!(file_name("", &f, "").unwrap(), "_");
    // A control of two bytes in the extension is one `_`.
    assert_eq!(file_name("", &f, "C\u{85}").unwrap(), "_.C_");
    assert_eq!(file_name("", &fields(), "C\u{85}").unwrap(), "IMG_0042.C_");
}

#[test]
fn a_day_writes_as_it_was_read() {
    let day = Day::from_exif("1999:12:31").unwrap();
    let f = Fields { day, ..fields() };
    assert_eq!(expand("{date}", &f).unwrap(), "1999-12-31");
    assert_eq!(Day::from_exif("1999:12:32"), None);
    assert_eq!(Day::from_exif("1999:00:10"), None);
}

#[test]
fn the_tokens_are_those_that_fill() {
    let f = fields();
    assert_eq!(
        tokens(),
        ["{date}", "{yyyy}", "{mm}", "{dd}", "{name}", "{camera}", "{seq}"]
    );
    for t in tokens() {
        assert!(expand(t, &f).is_ok(), "{t}");
    }
    let unknown = PatternError::Unknown("lens".into());
    assert_eq!(
        unknown.message(),
        format!("{{lens}} is not a token; {}", tokens().join(" "))
    );
}

#[test]
fn a_pattern_fills_piece_by_piece() {
    let f = fields();
    let fill = |p: &str| expand(p, &f).unwrap();
    for (a, b) in [("{date}/", "{name}"), ("a}", "{seq}b"), ("", "{mm}"), ("x", "")] {
        assert_eq!(fill(&format!("{a}{b}")), fill(a) + &fill(b));
    }
    let unknown = expand("{lens}{name", &f);
    assert_eq!(unknown, Err(PatternError::Unknown("lens".into())));
}

#[test]
fn a_day_written_reads_back() {
    for day in [
        Day { year: 1, month: 1, day: 1 },
        Day { year: 2026, month: 9, day: 24 },
        Day { year: 9999, month: 12, day: 31 },
    ] {
        let f = Fields { day, ..fields() };
        let date = expand("{date}", &f).unwrap();
        assert_eq!(Day::from_exif(&date), Some(day));
    }
}

#[test]
fn a_filled_pattern_has_the_patterns_separators() {
    let mut f = fields();
    f.camera = "Canon/EOS\\R5".into();
    let filled = expand("{camera}/{name}\\{camera}/x", &f).unwrap();
    let kept: String = filled.chars().filter(|c| *c == '/' || *c == '\\').collect();
    assert_eq!(kept, "/\\/");
}

#[test]
fn without_seq_a_name_is_the_same() {
    let (f, mut g) = (fields(), fields());
    g.seq = 99;
    assert_eq!(expand("{date}-{name}", &f), expand("{date}-{name}", &g));
    assert_ne!(expand("{date}-{seq}", &f), expand("{date}-{seq}", &g));
}

#[test]
fn with_room_for_both_neither_is_cut() {
    assert_eq!(with_tail("day one", ".CR3"), safe("day one") + ".CR3");
    let full = "a".repeat(196);
    assert_eq!(with_tail(&full, ".CR3"), safe(&full) + ".CR3");
    // A device's mark takes the room of a character.
    let device = format!("CON.{}", "a".repeat(191));
    assert_eq!(with_tail(&device, ".CR3"), safe(&device) + ".CR3");
    let device = format!("CON.{}", "a".repeat(192));
    assert_ne!(with_tail(&device, ".CR3"), safe(&device) + ".CR3");
}
