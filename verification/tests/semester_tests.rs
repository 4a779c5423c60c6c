use sso_relay::grading::RetakePolicy;
use sso_relay::semester::ascii_trim;
use sso_relay::semester::normalize_academic_semester;
use sso_relay::semester::to_timetable_semester;

#[test]
fn semester_aliases_are_normalized() {
    assert_eq!(normalize_academic_semester("1"), Some("1"));
    assert_eq!(normalize_academic_semester("3"), Some("1"));
    assert_eq!(normalize_academic_semester("2"), Some("2"));
    assert_eq!(normalize_academic_semester("12"), Some("2"));
}

#[test]
fn timetable_semester_mapping_is_stable() {
    assert_eq!(to_timetable_semester("1"), "3");
    assert_eq!(to_timetable_semester("2"), "12");
}

#[test]
fn invalid_semester_is_rejected() {
    assert_eq!(normalize_academic_semester(""), None);
    assert_eq!(normalize_academic_semester("0"), None);
    assert_eq!(normalize_academic_semester("spring"), None);
}

#[test]
fn surrounding_whitespace_is_ignored() {
    assert_eq!(normalize_academic_semester(" 12 "), Some("2"));
    assert_eq!(normalize_academic_semester("\t3\n"), Some("1"));
    assert_eq!(ascii_trim("  a b\t"), "a b");
    assert_eq!(ascii_trim(" \t \n"), "");
    assert_eq!(ascii_trim(""), "");
}

#[test]
fn retake_policy_keywords() {
    assert_eq!(RetakePolicy::from_str("highest"), RetakePolicy::Highest);
    assert_eq!(RetakePolicy::from_str("best"), RetakePolicy::Highest);
    assert_eq!(RetakePolicy::from_str("first"), RetakePolicy::First);
    assert_eq!(RetakePolicy::from_str(""), RetakePolicy::First);
    assert_eq!(RetakePolicy::from_str("HIGHEST"), RetakePolicy::First);
}
