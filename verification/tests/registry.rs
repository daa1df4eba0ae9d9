use murdoch_charsets::character_set::CharacterSet;
use murdoch_charsets::record::Record;
use murdoch_charsets::registry::{share_key, Registry};

fn ascii() -> Record {
    Record::new(
        "US-ASCII",
        Some("US-ASCII"),
        &[
            "iso-ir-6",
            "ANSI_X3.4-1968",
            "ANSI_X3.4-1986",
            "ISO_646.irv:1991",
            "ISO646-US",
            "US-ASCII",
            "us",
            "IBM367",
            "cp367",
            "csASCII",
        ],
        &[
            "ANSI_X3.4-1986",
            "ISO_646.IRV:1991",
            "US-ASCII",
            "IBM367",
            "CSASCII",
            "ISO-IR-6",
            "US",
            "ISO646-US",
            "ANSI_X3.4-1968",
            "CP367",
        ],
    )
    .unwrap()
}

fn latin2() -> Record {
    Record::new(
        "ISO_8859-2:1987",
        Some("ISO-8859-2"),
        &["iso-ir-101", "ISO_8859-2", "ISO-8859-2", "latin2", "l2", "csISOLatin2"],
        &[
            "ISO-8859-2",
            "ISO_8859-2:1987",
            "ISO-IR-101",
            "CSISOLATIN2",
            "LATIN2",
            "L2",
            "ISO_8859-2",
        ],
    )
    .unwrap()
}

fn utf8() -> Record {
    Record::new("UTF-8", None, &["UTF8", "UTF_8"], &["UTF-8", "UTF8", "UTF_8"]).unwrap()
}

fn utf16() -> Record {
    Record::new("UTF-16", None, &["UTF16", "UTF_16"], &["UTF-16", "UTF16", "UTF_16"]).unwrap()
}

fn sample() -> Registry {
    Registry::new(vec![ascii(), latin2(), utf8(), utf16()]).unwrap()
}

#[test]
fn registry_rejects_no_records() {
    assert!(Registry::new(Vec::new()).is_none());
}

#[test]
fn registry_accepts_one_record() {
    let reg = Registry::new(vec![utf8()]).unwrap();
    assert_eq!(reg.len(), 1);
}

#[test]
fn registry_rejects_shared_key() {
    let other = Record::new("UTF-8-BIS", None, &["utf8"], &["UTF-8-BIS", "UTF8"]).unwrap();
    assert!(Registry::new(vec![utf8(), other]).is_none());
    assert!(Registry::new(vec![other, utf8()]).is_none());
    assert!(Registry::new(vec![ascii(), utf8(), latin2(), other]).is_none());
}

#[test]
fn registry_rejects_record_listed_twice() {
    assert!(Registry::new(vec![utf8(), utf8()]).is_none());
    assert!(Registry::new(vec![utf8(), utf16(), utf8()]).is_none());
}

#[test]
fn registry_rejects_names_that_differ_in_case_only() {
    let lower = Record::new("utf-8", None, &[], &["UTF-8"]).unwrap();
    let upper = Record::new("UTF-8", None, &[], &["UTF-8"]).unwrap();
    assert!(Registry::new(vec![lower, upper]).is_none());
}

#[test]
fn registry_len_and_get() {
    let reg = sample();
    assert_eq!(reg.len(), 4);
    assert_eq!(reg.get(0).unwrap().name(), "US-ASCII");
    assert_eq!(reg.get(1).unwrap().name(), "ISO_8859-2:1987");
    assert_eq!(reg.get(2).unwrap().name(), "UTF-8");
    assert_eq!(reg.get(3).unwrap().name(), "UTF-16");
    assert_eq!(reg.get(3).unwrap().index(), 3);
    assert!(reg.get(4).is_none());
    assert!(reg.get(usize::MAX).is_none());
}

#[test]
fn registry_match_keys_in_declaration_order() {
    let reg = Registry::new(vec![utf16(), utf8()]).unwrap();
    assert_eq!(reg.match_keys(), vec!["UTF-16", "UTF16", "UTF_16", "UTF-8", "UTF8", "UTF_8"]);
    assert_eq!(sample().match_keys().len(), 10 + 7 + 3 + 3);
}

#[test]
fn registry_keys_of_distinct_records_do_not_meet() {
    let reg = sample();
    for i in 0..reg.len() {
        for j in 0..reg.len() {
            if i != j {
                let a = reg.get(i).unwrap().record();
                let b = reg.get(j).unwrap().record();
                assert!(!share_key(a.match_keys(), b.match_keys()));
                for key in a.match_keys() {
                    assert!(!b.match_keys().contains(key));
                }
            }
        }
    }
}

#[test]
fn registry_resolves_the_scenario_spellings() {
    let reg = sample();
    let a = reg.from_str("utf-8").unwrap();
    let b = reg.from_str("UTF8").unwrap();
    let c = reg.from_str("Utf_8").unwrap();
    assert_eq!(a.index(), 2);
    assert_eq!(b.index(), 2);
    assert_eq!(c.index(), 2);
    assert_eq!(a, b);
    assert_eq!(b, c);
    assert_eq!(a.name(), "UTF-8");
    assert_eq!(a.record(), utf8());
}

#[test]
fn registry_fails_on_the_scenario_miss() {
    let reg = Registry::new(vec![utf8()]).unwrap();
    let e = reg.from_str("UTF-9").unwrap_err();
    assert_eq!(e.required(), &["UTF-8", "UTF8", "UTF_8"]);
    assert_eq!(e.found(), "UTF-9");
}

#[test]
fn registry_fails_on_unknown_name() {
    let reg = sample();
    let e = reg.from_str("NOT-A-REAL-CHARSET").unwrap_err();
    assert_eq!(e.found(), "NOT-A-REAL-CHARSET");
    assert_eq!(e.required(), reg.match_keys().as_slice());
    assert_eq!(e.required().len(), 23);
    assert_eq!(e.required()[0], "ANSI_X3.4-1986");
    assert_eq!(e.required()[22], "UTF_16");
}

#[test]
fn registry_keeps_failed_input_verbatim() {
    let reg = sample();
    assert_eq!(reg.from_str("not-a-real-charset").unwrap_err().found(), "not-a-real-charset");
    assert_eq!(reg.from_str("").unwrap_err().found(), "");
    assert_eq!(reg.from_str(" utf-8").unwrap_err().found(), " utf-8");
    assert_eq!(reg.from_str("utf\u{2010}8").unwrap_err().found(), "utf\u{2010}8");
}

#[test]
fn registry_resolves_every_alias_in_every_case() {
    let reg = sample();
    for i in 0..reg.len() {
        let v = reg.get(i).unwrap();
        for alias in v.aliases() {
            assert_eq!(reg.from_str(alias).unwrap().index(), i);
            assert_eq!(reg.from_str(&alias.to_lowercase()).unwrap().index(), i);
            assert_eq!(reg.from_str(&alias.to_uppercase()).unwrap().index(), i);
        }
    }
}

#[test]
fn registry_resolves_every_name_in_every_case() {
    let reg = sample();
    for i in 0..reg.len() {
        let v = reg.get(i).unwrap();
        assert_eq!(reg.from_str(v.name()).unwrap().index(), i);
        assert_eq!(reg.from_str(&v.name().to_lowercase()).unwrap().index(), i);
        assert_eq!(reg.from_str(&v.name().to_uppercase()).unwrap().index(), i);
    }
}

#[test]
fn registry_resolves_every_match_key() {
    let reg = sample();
    for i in 0..reg.len() {
        let v = reg.get(i).unwrap();
        for key in v.record().match_keys() {
            assert_eq!(reg.from_str(key).unwrap().index(), i);
        }
    }
}

#[test]
fn registry_resolves_mixed_case_alias() {
    let reg = sample();
    assert_eq!(reg.from_str("cSaScIi").unwrap().name(), "US-ASCII");
    assert_eq!(reg.from_str("Iso-Ir-101").unwrap().name(), "ISO_8859-2:1987");
    assert_eq!(reg.from_str("iso_646.IRV:1991").unwrap().index(), 0);
}

#[test]
fn registry_does_not_fold_beyond_ascii() {
    let plain = Record::new("stra\u{df}e", None, &[], &["STRA\u{df}E"]).unwrap();
    let reg = Registry::new(vec![plain]).unwrap();
    assert!(reg.from_str("STRA\u{df}E").is_ok());
    assert!(reg.from_str("stra\u{df}e").is_ok());
    assert!(reg.from_str("STRASSE").is_err());
    assert!(reg.from_str("STRA\u{1e9e}E").is_err());
}

#[test]
fn registry_resolution_repeats() {
    let reg = sample();
    assert_eq!(reg.from_str("latin2").unwrap(), reg.from_str("latin2").unwrap());
    let first = reg.from_str("latin9").unwrap_err();
    let second = reg.from_str("latin9").unwrap_err();
    assert_eq!(first.found(), second.found());
    assert_eq!(first.required(), second.required());
}

#[test]
fn variant_exposes_its_record() {
    let reg = sample();
    let v = reg.from_str("l2").unwrap();
    assert_eq!(v.index(), 1);
    assert_eq!(v.name(), "ISO_8859-2:1987");
    assert_eq!(v.preferred_mime_name(), Some("ISO-8859-2"));
    assert_eq!(v.aliases(), latin2().aliases());
    assert_eq!(v.record().match_keys(), latin2().match_keys());
}

#[test]
fn variant_to_string_is_the_name() {
    let v = sample().from_str("us").unwrap();
    assert_eq!(v.to_string(), "US-ASCII");
    assert_eq!(v.to_string(), v.name());
    assert_eq!(v.as_str(), "US-ASCII");
}

#[test]
fn variant_as_bytes_is_utf8_of_name() {
    let v = sample().from_str("utf8").unwrap();
    assert_eq!(v.as_bytes(), "UTF-8".as_bytes());
    assert_eq!(v.as_bytes(), b"UTF-8");
}

#[test]
fn share_key_on_lists() {
    assert!(share_key(&["A", "B"], &["C", "B"]));
    assert!(share_key(&["A"], &["A"]));
    assert!(!share_key(&["A", "B"], &["C", "D"]));
    assert!(!share_key(&[], &["A"]));
    assert!(!share_key(&["A"], &[]));
    assert!(!share_key(&["A"], &["a"]));
}

#[test]
fn registry_variants_in_declaration_order() {
    let reg = sample();
    let all = reg.variants();
    assert_eq!(all.len(), 4);
    for (i, v) in all.iter().enumerate() {
        assert_eq!(v.index(), i);
        assert_eq!(v.name(), reg.get(i).unwrap().name());
    }
    assert_eq!(all[0].name(), "US-ASCII");
    assert_eq!(all[3].name(), "UTF-16");
}

#[test]
fn items_are_reachable_from_the_crate_root() {
    let r = murdoch_charsets::Record::new("UTF-8", None, &[], &["UTF-8"]).unwrap();
    let reg = murdoch_charsets::Registry::new(vec![r]).unwrap();
    let v: murdoch_charsets::Variant = reg.get(0).unwrap();
    let e: murdoch_charsets::InvalidCharacterSetNameError = reg.from_str("x").unwrap_err();
    assert_eq!(murdoch_charsets::CharacterSet::name(&v), "UTF-8");
    assert_eq!(e.found(), "x");
}
