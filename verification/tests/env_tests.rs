use perry_container_compose::orchestrate::env::{interpolate, parse_dotenv, parse_value, project_env};
use perry_container_compose::strmap::StrMap;

fn env_of(pairs: &[(&str, &str)]) -> StrMap<String> {
    let mut m = StrMap::new();
    for (k, v) in pairs {
        m.insert(k.to_string(), v.to_string());
    }
    m
}

#[test]
fn test_parse_dotenv_basic() {
    let content = "FOO=bar\nBAZ=qux\n# comment\n\nEMPTY=";
    let map = parse_dotenv(content);
    assert_eq!(map.get("FOO").unwrap(), "bar");
    assert_eq!(map.get("BAZ").unwrap(), "qux");
    assert_eq!(map.get("EMPTY").unwrap(), "");
}

#[test]
fn test_parse_dotenv_quoted() {
    let content = r#"A="hello world"
B='single quoted'
C="with \"escape\""
"#;
    let map = parse_dotenv(content);
    assert_eq!(map.get("A").unwrap(), "hello world");
    assert_eq!(map.get("B").unwrap(), "single quoted");
    assert_eq!(map.get("C").unwrap(), "with \"escape\"");
}

#[test]
fn test_interpolate_simple() {
    let env = env_of(&[("NAME", "world")]);
    assert_eq!(interpolate("Hello ${NAME}!", &env, &StrMap::new()), "Hello world!");
}

#[test]
fn test_interpolate_default() {
    let env = StrMap::new();
    assert_eq!(interpolate("${MISSING:-fallback}", &env, &StrMap::new()), "fallback");
}

#[test]
fn test_interpolate_conditional() {
    let env = env_of(&[("SET", "yes")]);
    assert_eq!(interpolate("${SET:+value}", &env, &StrMap::new()), "value");
    let empty: StrMap<String> = StrMap::new();
    assert_eq!(interpolate("${UNSET:+value}", &empty, &StrMap::new()), "");
}

#[test]
fn test_interpolate_dollar_dollar() {
    let env = StrMap::new();
    assert_eq!(interpolate("$$FOO", &env, &StrMap::new()), "$FOO");
}

#[test]
fn dotenv_last_assignment_wins() {
    let map = parse_dotenv("A=1\nB=2\nA=3\n");
    assert_eq!(map.get("A").unwrap(), "3");
    assert_eq!(map.get("B").unwrap(), "2");
    assert_eq!(map.len(), 2);
}

#[test]
fn dotenv_skips_comments_blank_lines_and_lines_without_equals() {
    let map = parse_dotenv("# A=1\n\n   \nNOEQUALS\n  KEY = spaced  \n");
    assert_eq!(map.len(), 1);
    assert_eq!(map.get("KEY").unwrap(), "spaced");
    assert!(map.get("NOEQUALS").is_none());
}

#[test]
fn dotenv_handles_crlf_line_endings() {
    let map = parse_dotenv("A=1\r\nB=two\r\n");
    assert_eq!(map.get("A").unwrap(), "1");
    assert_eq!(map.get("B").unwrap(), "two");
}

#[test]
fn parse_value_strips_matching_quotes_only() {
    assert_eq!(parse_value("\"quoted\""), "quoted");
    assert_eq!(parse_value("'single'"), "single");
    assert_eq!(parse_value("\"unbalanced"), "\"unbalanced");
    assert_eq!(parse_value("value #comment"), "value");
    assert_eq!(parse_value("a\\nb"), "a\\nb");
    assert_eq!(parse_value("\"a\\nb\""), "a\nb");
}

#[test]
fn interpolate_plain_variable_and_default_on_empty() {
    let env = env_of(&[("A", "x"), ("EMPTY", "")]);
    assert_eq!(interpolate("$A-$B.", &env, &StrMap::new()), "x-.");
    assert_eq!(interpolate("${EMPTY:-d}", &env, &StrMap::new()), "d");
    assert_eq!(interpolate("${EMPTY-d}", &env, &StrMap::new()), "");
    assert_eq!(interpolate("${UNSET-d}", &env, &StrMap::new()), "");
}

#[test]
fn interpolate_default_is_taken_literally() {
    let env = env_of(&[("INNER", "in")]);
    assert_eq!(interpolate("${OUTER:-${INNER}}", &env, &StrMap::new()), "${INNER}");
    assert_eq!(interpolate("${INNER:+a}b", &env, &StrMap::new()), "ab");
}

#[test]
fn interpolate_keeps_lone_dollar() {
    let env = StrMap::new();
    assert_eq!(interpolate("cost $ 5", &env, &StrMap::new()), "cost $ 5");
    assert_eq!(interpolate("end$", &env, &StrMap::new()), "end$");
}

#[test]
fn interpolation_falls_back_to_the_process_environment() {
    let env = env_of(&[("SHARED", "from-env")]);
    let process = env_of(&[("SHARED", "from-process"), ("ONLY_PROC", "p")]);
    assert_eq!(interpolate("${SHARED}", &env, &process), "from-env");
    assert_eq!(interpolate("${ONLY_PROC}", &env, &process), "p");
    assert_eq!(interpolate("$ONLY_PROC", &env, &process), "p");
    assert_eq!(interpolate("${ONLY_PROC:-d}", &env, &process), "p");
    assert_eq!(interpolate("${NEITHER:-d}", &env, &process), "d");
    assert_eq!(interpolate("${ONLY_PROC:+x}", &env, &process), "x");
    assert_eq!(interpolate("plain text", &env, &process), "plain text");
}

#[test]
fn project_env_precedence() {
    let process = env_of(&[("A", "proc"), ("B", "proc")]);
    let dotenv = env_of(&[("A", "dot"), ("C", "dot")]);
    let f1 = env_of(&[("B", "f1"), ("D", "f1")]);
    let f2 = env_of(&[("D", "f2")]);
    let env = project_env(process, Some(dotenv), vec![f1, f2]);
    assert_eq!(env.get("A").unwrap(), "proc");
    assert_eq!(env.get("B").unwrap(), "f1");
    assert_eq!(env.get("C").unwrap(), "dot");
    assert_eq!(env.get("D").unwrap(), "f2");
    assert!(env.get("E").is_none());
}
