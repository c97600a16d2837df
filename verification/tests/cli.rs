use polish::cli::parse_flag;

fn args(v: &[&str]) -> Vec<String> {
    v.iter().map(|s| s.to_string()).collect()
}

#[test]
fn parse_flag_takes_value_after_first_occurrence() {
    let a = args(&["polish", "build", "--theme", "clean", "--theme", "enterprise"]);
    assert_eq!(parse_flag(&a, "--theme"), Some("clean".to_string()));
    assert_eq!(parse_flag(&a, "--out"), None);
    assert_eq!(parse_flag(&args(&["polish", "--theme"]), "--theme"), None);
}
