use andy::error::{AppError, ErrorKind};
use andy::runner::{
    device_arch, device_dir, format_command, is_virtual_device, property_value, select_so,
    NativeLibrary, DEVICE_PORT,
};
use andy::text::{
    append_decimal, append_escaped, append_joined, append_repeated, append_signed_decimal,
    chars_of, comes_first, contains, contains_char, decimal_string, is_whitespace, last_segment,
    matches_at, parse_u64, same_chars, slice_of, split_lines, starts_with, str_eq, string_of,
    trim,
};

fn chars(s: &str) -> Vec<char> {
    s.chars().collect()
}

fn text(v: &[char]) -> String {
    v.iter().collect()
}

#[test]
fn strings_and_buffers_convert_both_ways() {
    for s in ["", "a", "héllo wörld", "日本語", "a\nb\tc"] {
        assert_eq!(chars_of(s), chars(s));
        assert_eq!(string_of(&chars(s)), s);
    }
}

#[test]
fn equality_is_character_by_character() {
    assert!(str_eq("", ""));
    assert!(str_eq("abc", "abc"));
    assert!(!str_eq("abc", "abd"));
    assert!(!str_eq("abc", "ab"));
    assert!(!str_eq("ab", "abc"));
    assert!(same_chars(&chars("é"), &chars("é")));
    assert!(!same_chars(&chars("é"), &chars("e")));
}

#[test]
fn decimal_numerals_are_exact() {
    for n in [0u64, 1, 9, 10, 11, 99, 100, 2500, 30000, u64::MAX] {
        assert_eq!(decimal_string(n), n.to_string());
        let mut out = chars("x");
        append_decimal(&mut out, n);
        assert_eq!(text(&out), format!("x{n}"));
    }
    for i in [0i32, 1, -1, 10, -10, 2147483647, -2147483648] {
        let mut out = Vec::new();
        append_signed_decimal(&mut out, i);
        assert_eq!(text(&out), i.to_string());
    }
}

#[test]
fn written_numbers_are_read_back() {
    for n in [0u64, 7, 10, 2400, 1 << 40, u64::MAX] {
        assert_eq!(parse_u64(&decimal_string(n)), Some(n));
    }
}

#[test]
fn searching_finds_what_is_there() {
    let hay = chars("Warning: Activity not started");
    assert!(contains(&hay, &chars("Activity not started")));
    assert!(contains(&hay, &chars("Warning")));
    assert!(contains(&hay, &chars("")));
    assert!(contains(&hay, &hay));
    assert!(!contains(&hay, &chars("activity")));
    assert!(!contains(&hay, &chars("Warning: Activity not started!")));
    assert!(contains(&chars(""), &chars("")));
    assert!(!contains(&chars(""), &chars("a")));
    assert!(contains(&chars("aab"), &chars("ab")));
    assert!(starts_with(&hay, &chars("Warn")));
    assert!(!starts_with(&hay, &chars("arn")));
    assert!(starts_with(&hay, &chars("")));
    assert!(matches_at(&hay, &chars("started"), 22));
    assert!(!matches_at(&hay, &chars("started"), 23));
    assert!(!matches_at(&hay, &chars("x"), 100));
    assert!(matches_at(&hay, &chars(""), hay.len()));
    assert!(contains_char(&hay, ':'));
    assert!(!contains_char(&hay, '/'));
    assert_eq!(text(&slice_of(&hay, 9, 17)), "Activity");
    assert_eq!(text(&slice_of(&hay, 3, 3)), "");
}

#[test]
fn white_space_is_what_the_standard_library_says() {
    for code in 0u32..0x3100 {
        if let Some(c) = char::from_u32(code) {
            assert_eq!(is_whitespace(c), c.is_whitespace(), "U+{code:04X}");
        }
    }
    assert!(!is_whitespace('\u{FEFF}'));
    assert!(!is_whitespace('\u{200B}'));
}

#[test]
fn trimming_agrees_with_the_standard_library() {
    for s in ["", " ", "a", "  a b  ", "\t\r\n x \u{00A0}\u{3000}", "\u{2003}é\u{2003}", " \n "] {
        assert_eq!(text(&trim(&chars(s))), s.trim(), "trimming {s:?}");
    }
}

#[test]
fn lines_agree_with_the_standard_library() {
    for s in [
        "",
        "a",
        "a\n",
        "a\nb",
        "a\r\nb\r\n",
        "\n",
        "\n\n",
        "a\r",
        "a\rb\n",
        "\r\n",
        "a\n\nb",
        "a\r\r\n",
        "last\nline\r",
    ] {
        let ours: Vec<String> = split_lines(&chars(s)).iter().map(|l| text(l)).collect();
        let theirs: Vec<String> = s.lines().map(|l| l.to_string()).collect();
        assert_eq!(ours, theirs, "lines of {s:?}");
    }
}

#[test]
fn order_agrees_with_the_standard_library() {
    let words = ["", "a", "B", "ab", "abc", "abd", "b", "com.x.a", "com.x.a1", "com.x.b", "é", "z", "日"];
    for a in words {
        for b in words {
            assert_eq!(comes_first(&chars(a), &chars(b)), a < b, "{a:?} before {b:?}");
        }
    }
}

#[test]
fn building_blocks_of_a_line() {
    let mut out = Vec::new();
    append_escaped(&mut out, &chars("a\nb\n\nc\\n"));
    assert_eq!(text(&out), "a\\nb\\n\\nc\\n");
    assert_eq!(text(&last_segment(&chars("android.widget.Button"), '.')), "Button");
    assert_eq!(text(&last_segment(&chars("Button"), '.')), "Button");
    assert_eq!(text(&last_segment(&chars("a."), '.')), "");
    assert_eq!(text(&last_segment(&chars(""), '.')), "");
    let mut out = chars(">");
    append_joined(&mut out, &vec![chars("a"), chars(""), chars("c")], &chars(", "));
    assert_eq!(text(&out), ">a, , c");
    let mut out = Vec::new();
    append_joined(&mut out, &vec![], &chars(", "));
    assert_eq!(text(&out), "");
    let mut out = Vec::new();
    append_joined(&mut out, &vec![chars("only")], &chars(", "));
    assert_eq!(text(&out), "only");
    let mut out = Vec::new();
    append_repeated(&mut out, &chars("  "), 3);
    assert_eq!(text(&out), "      ");
    let mut out = chars("x");
    append_repeated(&mut out, &chars("ab"), 0);
    assert_eq!(text(&out), "x");
}

#[test]
fn errors_carry_kind_message_and_status() {
    let e = AppError::new(ErrorKind::LaunchFailed, "am start failed: x y");
    assert_eq!(e.kind, ErrorKind::LaunchFailed);
    assert_eq!(e.message, "am start failed: x y");
    assert_eq!(e.status(), 500);
    let e = AppError::not_found("s 1");
    assert_eq!(e.kind, ErrorKind::NotFound);
    assert_eq!(e.message, "screen s 1 not found");
    assert_eq!(e.status(), 404);
    for kind in [
        ErrorKind::ProviderInitFailed,
        ErrorKind::NoFreePackage,
        ErrorKind::NoFrameAvailable,
        ErrorKind::EncodeFailed,
        ErrorKind::EmptyDump,
        ErrorKind::LaunchFailed,
        ErrorKind::CommandFailed,
        ErrorKind::NodeNotFound,
        ErrorKind::ServerNotReady,
    ] {
        assert_eq!(AppError::new(kind, "").status(), 500);
    }
}

#[test]
fn device_is_virtual_when_either_property_says_so() {
    assert!(is_virtual_device("1", ""));
    assert!(is_virtual_device("", "1"));
    assert!(is_virtual_device("1", "1"));
    assert!(!is_virtual_device("", ""));
    assert!(!is_virtual_device("0", "true"));
    assert!(!is_virtual_device("1 ", " 1"));
    assert!(is_virtual_device(&property_value("1\n"), &property_value("\n")));
    assert_eq!(property_value("  x86_64\r\n"), "x86_64");
}

#[test]
fn architecture_follows_the_abi() {
    assert_eq!(device_arch("x86_64"), Ok("x86_64".to_string()));
    assert_eq!(device_arch("arm64-v8a"), Ok("aarch64".to_string()));
    assert_eq!(device_arch("armeabi-v7a"), Err("unsupported device ABI: armeabi-v7a".to_string()));
    assert_eq!(device_arch(""), Err("unsupported device ABI: ".to_string()));
    assert_eq!(select_so("x86_64"), Ok(NativeLibrary::X86_64));
    assert_eq!(select_so("aarch64"), Ok(NativeLibrary::Aarch64));
    assert_eq!(select_so("arm64-v8a"), Err("unsupported arch: arm64-v8a".to_string()));
    assert_eq!(select_so(&device_arch("arm64-v8a").unwrap()), Ok(NativeLibrary::Aarch64));
}

#[test]
fn command_is_shown_with_its_arguments() {
    let args: Vec<String> = ["shell", "getprop", "ro.kernel.qemu"].iter().map(|s| s.to_string()).collect();
    assert_eq!(format_command("adb", &args), "adb shell getprop ro.kernel.qemu");
    assert_eq!(format_command("adb", &vec![]), "adb");
    assert_eq!(format_command("", &vec![String::new(), "x".to_string()]), "  x");
    assert_eq!(device_dir(), "/data/local/tests/coordinator");
    assert_eq!(DEVICE_PORT, 21632);
}
