use rustc_shim::resolve::resolve_local;
use rustc_shim::resolve::resolve_sysroot;
use rustc_shim::rewrite::build_final_args;
use rustc_shim::rewrite::count_tokens_containing;
use rustc_shim::rewrite::exit_code_for;
use rustc_shim::rewrite::strip_wrapper;
use rustc_shim::scan::arg_value;
use rustc_shim::scan::find_option;
use rustc_shim::text::contains_str;
use rustc_shim::text::file_stem_str;
use rustc_shim::text::trim_str;

fn args(tokens: &[&str]) -> Vec<String> {
    tokens.iter().map(|t| t.to_string()).collect()
}

#[test]
fn first_match_wins() {
    let v = args(&["--a=1", "--a=2"]);
    assert_eq!(find_option(&v, "--a"), Some("1".to_string()));
    assert_eq!(arg_value(&v, "--a", |_| true), Some("1".to_string()));
}

#[test]
fn space_separated_form() {
    let v = args(&["--a", "1"]);
    assert_eq!(find_option(&v, "--a"), Some("1".to_string()));
    assert_eq!(arg_value(&v, "--a", |_| true), Some("1".to_string()));
}

#[test]
fn no_following_token() {
    let v = args(&["--a"]);
    assert_eq!(find_option(&v, "--a"), None);
    assert_eq!(arg_value(&v, "--a", |_| true), None);
}

#[test]
fn exact_name_required() {
    assert_eq!(find_option(&args(&["--abc=1"]), "--a"), None);
    assert_eq!(find_option(&args(&["--a=1"]), "--abc"), None);
    assert_eq!(find_option(&args(&["x--a=1"]), "--a"), None);
}

#[test]
fn predicate_skips_rejected_values() {
    let v = args(&["--a=1", "--a=2"]);
    assert_eq!(arg_value(&v, "--a", |v| v == "2"), Some("2".to_string()));
    let v = args(&["--a", "x", "--a=y"]);
    assert_eq!(arg_value(&v, "--a", |v| v == "y"), Some("y".to_string()));
    let v = args(&["--a=1"]);
    assert_eq!(arg_value(&v, "--a", |_| false), None);
}

#[test]
fn empty_value_forms() {
    assert_eq!(find_option(&args(&["--a="]), "--a"), Some(String::new()));
    assert_eq!(find_option(&args(&["--a", ""]), "--a"), Some(String::new()));
}

#[test]
fn trim_removes_surrounding_whitespace() {
    assert_eq!(trim_str(" /usr/lib\n"), "/usr/lib".to_string());
    assert_eq!(trim_str("\t \r\n"), String::new());
    assert_eq!(trim_str("a b"), "a b".to_string());
    assert_eq!(trim_str(""), String::new());
}

#[test]
fn file_stems() {
    assert_eq!(file_stem_str("rustc"), "rustc".to_string());
    assert_eq!(file_stem_str("/usr/local/bin/rustc"), "rustc".to_string());
    assert_eq!(file_stem_str("rustc.exe"), "rustc".to_string());
    assert_eq!(file_stem_str(".rustc"), ".rustc".to_string());
    assert_eq!(file_stem_str("bin/shim-driver"), "shim-driver".to_string());
    assert_eq!(file_stem_str("dir/"), "dir".to_string());
    assert_eq!(file_stem_str("a.tar.gz"), "a.tar".to_string());
}

#[test]
fn substring_search() {
    assert!(contains_str("target/cita/debug", "cita"));
    assert!(contains_str("cita", "cita"));
    assert!(!contains_str("cit", "cita"));
    assert!(!contains_str("", "cita"));
    assert!(contains_str("anything", ""));
    let v = args(&["a-cita", "cita-b", "none", "xcitax"]);
    assert_eq!(count_tokens_containing(&v, "cita"), 3);
}

#[test]
fn wrapper_token_is_stripped() {
    let v = args(&["shim", "/home/u/.rustup/bin/rustc", "--edition=2018"]);
    assert_eq!(strip_wrapper(v), args(&["shim", "--edition=2018"]));
}

#[test]
fn non_wrapper_token_is_kept() {
    let v = args(&["shim", "main.rs", "--edition=2018"]);
    assert_eq!(strip_wrapper(v.clone()), v);
    let short = args(&["shim"]);
    assert_eq!(strip_wrapper(short.clone()), short);
}

#[test]
fn env_override_wins_without_flag() {
    let r = resolve_local(&None, &Some("/foo".to_string()), &None, &None, &None, &None);
    assert_eq!(r, Some("/foo".to_string()));
}

#[test]
fn explicit_flag_wins_over_everything() {
    let r = resolve_local(
        &Some("/bar".to_string()),
        &Some("/foo".to_string()),
        &Some("/h".to_string()),
        &None,
        &Some("tc".to_string()),
        &None,
    );
    assert_eq!(r, Some("/bar".to_string()));
}

#[test]
fn toolchain_pair_is_joined() {
    let r = resolve_local(
        &None,
        &None,
        &Some("/home/u/.rustup".to_string()),
        &None,
        &Some("stable".to_string()),
        &None,
    );
    assert_eq!(r, Some("/home/u/.rustup/toolchains/stable".to_string()));
}

#[test]
fn toolchain_aliases_are_consulted() {
    let r = resolve_local(
        &None,
        &None,
        &None,
        &Some("/mr".to_string()),
        &None,
        &Some("tc".to_string()),
    );
    assert_eq!(r, Some("/mr/toolchains/tc".to_string()));
    let half = resolve_local(&None, &None, &Some("/h".to_string()), &None, &None, &None);
    assert_eq!(half, None);
}

#[test]
fn delegate_report_is_trimmed() {
    let r = resolve_sysroot(None, Some("/usr/sysroot\n".to_string()), None);
    assert_eq!(r, Some("/usr/sysroot".to_string()));
}

#[test]
fn local_result_skips_delegate_report() {
    let r = resolve_sysroot(
        Some("/foo".to_string()),
        Some("/other\n".to_string()),
        Some("/fb".to_string()),
    );
    assert_eq!(r, Some("/foo".to_string()));
}

#[test]
fn built_in_fallback_is_last() {
    let r = resolve_sysroot(None, None, Some("/fb".to_string()));
    assert_eq!(r, Some("/fb".to_string()));
}

#[test]
fn all_sources_failing_is_detected() {
    assert_eq!(resolve_sysroot(None, None, None), None);
    let local = resolve_local(&None, &None, &None, &None, &None, &None);
    assert_eq!(resolve_sysroot(local, None, None), None);
}

#[test]
fn existing_sysroot_flag_is_kept_alone() {
    let stripped = args(&["shim", "--sysroot=/bar", "main.rs"]);
    let out = build_final_args(stripped.clone(), &stripped, true, &"/unused".to_string());
    assert_eq!(out, args(&["--sysroot=/bar", "main.rs"]));
    let occurrences = out
        .iter()
        .filter(|t| t.split('=').next() == Some("--sysroot"))
        .count();
    assert_eq!(occurrences, 1);
    assert!(out.iter().any(|t| t == "--sysroot=/bar"));
}

#[test]
fn missing_sysroot_flag_is_appended() {
    let stripped = args(&["shim", "main.rs"]);
    let out = build_final_args(stripped.clone(), &stripped, false, &"/sr".to_string());
    assert_eq!(out, args(&["main.rs", "--sysroot", "/sr"]));
}

#[test]
fn marker_heuristic_appends_debug_info() {
    let stripped = args(&["shim", "a-cita", "b-cita", "c-cita"]);
    let out = build_final_args(stripped.clone(), &stripped, true, &"/sr".to_string());
    assert_eq!(out, args(&["a-cita", "b-cita", "c-cita", "-C", "debuginfo=1"]));
}

#[test]
fn two_markers_are_not_enough() {
    let stripped = args(&["shim", "a-cita", "b-cita", "plain"]);
    let out = build_final_args(stripped.clone(), &stripped, true, &"/sr".to_string());
    assert_eq!(out, args(&["a-cita", "b-cita", "plain"]));
}

#[test]
fn present_debug_flag_disables_heuristic() {
    let stripped = args(&["shim", "a-cita", "b-cita", "c-cita", "-C", "debuginfo=2"]);
    let out = build_final_args(stripped.clone(), &stripped, true, &"/sr".to_string());
    assert_eq!(out, args(&["a-cita", "b-cita", "c-cita", "-C", "debuginfo=2"]));
}

#[test]
fn single_token_debug_flag_disables_heuristic() {
    let stripped = args(&["shim", "-Cdebuginfo=2", "a-cita", "b-cita", "c-cita"]);
    let out = build_final_args(stripped.clone(), &stripped, true, &"/sr".to_string());
    assert_eq!(out, args(&["-Cdebuginfo=2", "a-cita", "b-cita", "c-cita"]));
}

#[test]
fn heuristic_weighs_raw_list_not_stripped() {
    let raw = args(&["shim", "/cita/bin/rustc", "a-cita", "b-cita"]);
    let stripped = strip_wrapper(raw.clone());
    assert_eq!(stripped, args(&["shim", "a-cita", "b-cita"]));
    let out = build_final_args(stripped, &raw, true, &"/sr".to_string());
    assert_eq!(out, args(&["a-cita", "b-cita", "-C", "debuginfo=1"]));
}

#[test]
fn empty_sources_count_as_absent() {
    let r = resolve_local(
        &Some(String::new()),
        &Some(String::new()),
        &Some("/h".to_string()),
        &None,
        &Some("tc".to_string()),
        &None,
    );
    assert_eq!(r, Some("/h/toolchains/tc".to_string()));
    let r = resolve_local(&None, &Some(String::new()), &None, &None, &None, &None);
    assert_eq!(r, None);
    assert_eq!(
        resolve_sysroot(None, Some("  \n".to_string()), Some("/fb".to_string())),
        Some("/fb".to_string())
    );
    assert_eq!(resolve_sysroot(Some(String::new()), None, Some(String::new())), None);
}

#[test]
fn sysroot_append_and_heuristic_combine() {
    let stripped = args(&["shim", "a-cita", "b-cita", "c-cita"]);
    let out = build_final_args(stripped.clone(), &stripped, false, &"/sr".to_string());
    assert_eq!(
        out,
        args(&["a-cita", "b-cita", "c-cita", "--sysroot", "/sr", "-C", "debuginfo=1"])
    );
}

#[test]
fn exit_codes_propagate() {
    assert_eq!(exit_code_for(true), 0);
    assert_eq!(exit_code_for(false), -1);
}
