use overlay_pipeline::codec::json_escape;
use overlay_pipeline::decimal::{fmt_i64, fmt_ms, fmt_u64};
use overlay_pipeline::platform::{
    build_windows_args, build_wsl_command, script_name_is_valid, shell_quote, OsEnvironment,
};

#[test]
fn milliseconds_render_as_shortest_exact_seconds() {
    assert_eq!(fmt_ms(0), "0");
    assert_eq!(fmt_ms(500), "0.5");
    assert_eq!(fmt_ms(1000), "1");
    assert_eq!(fmt_ms(1050), "1.05");
    assert_eq!(fmt_ms(1005), "1.005");
    assert_eq!(fmt_ms(7000), "7");
    assert_eq!(fmt_ms(123), "0.123");
    assert_eq!(fmt_ms(120), "0.12");
    assert_eq!(fmt_ms(100), "0.1");
    assert_eq!(fmt_ms(-300), "-0.3");
    assert_eq!(fmt_ms(-12345), "-12.345");
}

#[test]
fn integers_render_in_base_ten() {
    assert_eq!(fmt_u64(0), "0");
    assert_eq!(fmt_u64(907), "907");
    assert_eq!(fmt_i64(0), "0");
    assert_eq!(fmt_i64(10), "10");
    assert_eq!(fmt_i64(-42), "-42");
    assert_eq!(fmt_i64(i64::MAX), "9223372036854775807");
}

#[test]
fn json_escape_handles_specials() {
    assert_eq!(json_escape("plain"), "plain");
    assert_eq!(json_escape("a\"b"), "a\\\"b");
    assert_eq!(json_escape("a\\b"), "a\\\\b");
    assert_eq!(json_escape("line\nbreak"), "line\\nbreak");
    assert_eq!(json_escape("tab\there"), "tab\\there");
    assert_eq!(json_escape("cr\rhere"), "cr\\rhere");
    assert_eq!(json_escape("\u{1}"), "\\u0001");
    assert_eq!(json_escape("\u{1f}"), "\\u001f");
}

#[test]
fn script_names_must_be_bare_python_files() {
    assert!(script_name_is_valid("analysis.py"));
    assert!(!script_name_is_valid("py"));
    assert!(!script_name_is_valid("analysis.txt"));
    assert!(!script_name_is_valid("dir/analysis.py"));
    assert!(!script_name_is_valid("dir\\analysis.py"));
}

#[test]
fn shell_quoting_escapes_single_quotes() {
    assert_eq!(shell_quote("plain"), "'plain'");
    assert_eq!(shell_quote("a'b"), "'a'\\''b'");
    assert_eq!(shell_quote(""), "''");
}

#[test]
fn wsl_command_line_quotes_arguments() {
    let cmd = build_wsl_command("run.py", &vec![String::from("a b"), String::from("c")]);
    assert_eq!(
        cmd,
        "cd '/mnt/c/Users/User/Documents/sample_script' && pipenv run python run.py 'a b' 'c'"
    );
}

#[test]
fn windows_arguments_enter_the_script_directory() {
    let args = build_windows_args("run.py", &vec![String::from("--fast")]);
    let expected: Vec<&str> = vec![
        "/C",
        "cd",
        "/D",
        "C:\\Users\\User\\Documents\\boardcast\\py-util",
        "&&",
        "pipenv",
        "run",
        "python",
        "run.py",
        "--fast",
    ];
    assert_eq!(args, expected);
}

#[test]
fn default_environment_is_windows() {
    assert_eq!(OsEnvironment::default(), OsEnvironment::Windows);
}
