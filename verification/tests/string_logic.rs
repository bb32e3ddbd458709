use wpihal::resource_enum::{str_lt, ResourceEnumBuilder};
use wpihal::strutil::{i64_to_string, parse_i64, str_eq, str_starts_with, u64_to_string};
use wpihal::usage_report::{collect_usage_enums, parse_usage_line, split_lines};

#[test]
fn parse_i64_reads_decimal_numbers() {
    assert_eq!(parse_i64("0"), Some(0));
    assert_eq!(parse_i64("12"), Some(12));
    assert_eq!(parse_i64("+7"), Some(7));
    assert_eq!(parse_i64("-13"), Some(-13));
    assert_eq!(parse_i64("007"), Some(7));
    assert_eq!(parse_i64("9223372036854775807"), Some(i64::MAX));
    assert_eq!(parse_i64("-9223372036854775808"), Some(i64::MIN));
}

#[test]
fn parse_i64_rejects_what_is_no_number() {
    assert_eq!(parse_i64(""), None);
    assert_eq!(parse_i64("-"), None);
    assert_eq!(parse_i64("+"), None);
    assert_eq!(parse_i64("12a"), None);
    assert_eq!(parse_i64(" 12"), None);
    assert_eq!(parse_i64("1 2"), None);
    assert_eq!(parse_i64("--4"), None);
    assert_eq!(parse_i64("9223372036854775808"), None);
    assert_eq!(parse_i64("-9223372036854775809"), None);
    assert_eq!(parse_i64("99999999999999999999999"), None);
}

#[test]
fn numbers_format_in_decimal() {
    assert_eq!(u64_to_string(0), "0");
    assert_eq!(u64_to_string(7), "7");
    assert_eq!(u64_to_string(1234567890), "1234567890");
    assert_eq!(u64_to_string(u64::MAX), "18446744073709551615");
    assert_eq!(i64_to_string(0), "0");
    assert_eq!(i64_to_string(-1), "-1");
    assert_eq!(i64_to_string(42), "42");
    assert_eq!(i64_to_string(i64::MIN), "-9223372036854775808");
    assert_eq!(i64_to_string(i64::MAX), "9223372036854775807");
}

#[test]
fn string_comparisons() {
    assert!(str_eq("athena", "athena"));
    assert!(!str_eq("athena", "athena2"));
    assert!(!str_eq("athena", "athenA"));
    assert!(str_starts_with("https://frcmaven.wpi.edu", "https://"));
    assert!(!str_starts_with("http://frcmaven.wpi.edu", "https://"));
    assert!(str_starts_with("file:", "file:"));
    assert!(!str_starts_with("file", "file:"));
    assert!(str_lt("Motor", "Relay"));
    assert!(!str_lt("Relay", "Motor"));
    assert!(!str_lt("Motor", "Motor"));
    assert!(str_lt("Motor", "Motors"));
}

#[test]
fn usage_lines_parse_into_table_variant_and_value() {
    assert_eq!(
        parse_usage_line("    kResourceType_Motor = 12,"),
        Some(("ResourceType".to_string(), "Motor".to_string(), 12))
    );
    assert_eq!(
        parse_usage_line("\tkLanguage_CPlusPlus_2 = 7,"),
        Some(("Language".to_string(), "CPlusPlus_2".to_string(), 7))
    );
    assert_eq!(
        parse_usage_line("  kResourceType_Relay = 3, // trailing notes"),
        Some(("ResourceType".to_string(), "Relay".to_string(), 3))
    );
}

#[test]
fn usage_lines_accept_mixed_whitespace() {
    assert_eq!(
        parse_usage_line(" \t kResourceType_PWM = 0,"),
        Some(("ResourceType".to_string(), "PWM".to_string(), 0))
    );
}

#[test]
fn malformed_usage_lines_parse_to_nothing() {
    assert_eq!(parse_usage_line("kResourceType_Motor = 12,"), None);
    assert_eq!(parse_usage_line("    ResourceType_Motor = 12,"), None);
    assert_eq!(parse_usage_line("    kResourceType = 12,"), None);
    assert_eq!(parse_usage_line("    kResourceType_Motor = 12"), None);
    assert_eq!(parse_usage_line("    kResourceType_Motor=12,"), None);
    assert_eq!(parse_usage_line("    kResourceType_Motor = ,"), None);
    assert_eq!(parse_usage_line("    kResourceType_Motor = x,"), None);
    assert_eq!(parse_usage_line("namespace HALUsageReporting {"), None);
    assert_eq!(parse_usage_line(""), None);
    assert_eq!(parse_usage_line("    kTooBig_Value = 2147483648,"), None);
    assert_eq!(
        parse_usage_line("    kJustFits_Value = 2147483647,"),
        Some(("JustFits".to_string(), "Value".to_string(), i32::MAX))
    );
}

#[test]
fn builder_collects_and_sorts_variants() {
    let mut b = ResourceEnumBuilder::new("ResourceType");
    assert_eq!(b.name(), "ResourceType");
    assert_eq!(b.variant_count(), 0);
    b.insert_variant("Relay", 3);
    b.insert_variant("Motor", 12);
    b.insert_variant("Accelerometer", 1);
    assert_eq!(b.variant_count(), 3);
    let expected = "#[derive(Debug, Copy, Clone, PartialEq, Eq)]\n#[repr(i32)]\npub enum ResourceType {\n    kAccelerometer = 1,\n    kRelay = 3,\n    kMotor = 12,\n}\n";
    assert_eq!(b.generate_enum(), expected);
}

#[test]
fn builder_replaces_an_existing_variant() {
    let mut b = ResourceEnumBuilder::new("Tbl");
    b.insert_variant("A", 1);
    b.insert_variant("B", 2);
    b.insert_variant("A", 9);
    assert_eq!(b.variant_count(), 2);
    let expected =
        "#[derive(Debug, Copy, Clone, PartialEq, Eq)]\n#[repr(i32)]\npub enum Tbl {\n    kB = 2,\n    kA = 9,\n}\n";
    assert_eq!(b.generate_enum(), expected);
}

#[test]
fn builder_breaks_value_ties_by_name() {
    let mut b = ResourceEnumBuilder::new("Tbl");
    b.insert_variant("Zeta", 5);
    b.insert_variant("Alpha", 5);
    let expected =
        "#[derive(Debug, Copy, Clone, PartialEq, Eq)]\n#[repr(i32)]\npub enum Tbl {\n    kAlpha = 5,\n    kZeta = 5,\n}\n";
    assert_eq!(b.generate_enum(), expected);
}

#[test]
fn empty_builder_generates_empty_enum() {
    let b = ResourceEnumBuilder::new("Empty");
    let expected =
        "#[derive(Debug, Copy, Clone, PartialEq, Eq)]\n#[repr(i32)]\npub enum Empty {\n}\n";
    assert_eq!(b.generate_enum(), expected);
}

#[test]
fn split_lines_matches_line_structure() {
    assert_eq!(split_lines(""), Vec::<String>::new());
    assert_eq!(split_lines("a"), vec!["a".to_string()]);
    assert_eq!(split_lines("a\n"), vec!["a".to_string()]);
    assert_eq!(split_lines("a\nbc"), vec!["a".to_string(), "bc".to_string()]);
    assert_eq!(split_lines("\n"), vec!["".to_string()]);
    assert_eq!(
        split_lines("one\n\ntwo\n"),
        vec!["one".to_string(), "".to_string(), "two".to_string()]
    );
}

#[test]
fn header_text_collects_into_tables() {
    let header = "namespace HALUsageReporting {\n  kResourceType_Motor = 12,\n  kResourceType_Relay = 3,\n  kLanguage_CPlusPlus = 2,\n  kResourceType_Motor = 13,\n}\n";
    let builders = collect_usage_enums(header);
    assert_eq!(builders.len(), 2);
    assert_eq!(builders[0].name(), "ResourceType");
    assert_eq!(builders[1].name(), "Language");
    assert_eq!(builders[0].variant_count(), 2);
    assert_eq!(
        builders[0].generate_enum(),
        "#[derive(Debug, Copy, Clone, PartialEq, Eq)]\n#[repr(i32)]\npub enum ResourceType {\n    kRelay = 3,\n    kMotor = 13,\n}\n"
    );
    assert_eq!(
        builders[1].generate_enum(),
        "#[derive(Debug, Copy, Clone, PartialEq, Eq)]\n#[repr(i32)]\npub enum Language {\n    kCPlusPlus = 2,\n}\n"
    );
}
