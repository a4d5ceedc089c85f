use cocox::constants::COMMIT_TYPES;
use cocox::messages::{
    commit_type_invalid_error, COMMIT_TYPE_MISSING_ERROR, DESCRIPTION_FULL_STOP_END_ERROR,
    DESCRIPTION_LINE_BREAK_ERROR, DESCRIPTION_MISSING_ERROR, DESCRIPTION_MULTIPLE_SPACE_START_ERROR,
    DESCRIPTION_NO_LEADING_SPACE_ERROR, INCORRECT_FORMAT_ERROR, SCOPE_EMPTY_ERROR,
    SCOPE_WHITESPACE_ERROR, SPACE_AFTER_COMMIT_TYPE_ERROR, SPACE_AFTER_SCOPE_ERROR,
};
use cocox::utils::is_ignored;
use cocox::validators::{validate_detailed_pattern, validate_simple_pattern};
use regex::Regex;

// The patterns of the grammar, run by the regex engine, against which the
// library's matchers are compared on many generated messages.

fn strict_regex() -> Regex {
    let types = COMMIT_TYPES.join("|");
    Regex::new(&format!(
        r"(?s)^(?P<type>{types})(?P<scope>\(\S+\))?!?:(?: (?P<description>[^\s][^\n\r]+[^\.]))((\n\n(?P<body>.*))|(\s*))?$"
    ))
    .unwrap()
}

fn lenient_regex() -> Regex {
    Regex::new(
        r"(?s)^(?P<type>\w+\s*)?(?:\((?P<scope>[^\)]*)\)(?P<space_after_scope>\s*))?!?(?P<colon>:\s?)?(?:(?P<description>[^\n\r]+))?(?P<body_separation>\n?\n?)(((?P<body>.*))|(\s*))?$",
    )
    .unwrap()
}

fn ignore_regex() -> Regex {
    Regex::new(&[
        r"^((Merge pull request)|(Merge (.*?) into (.*?)|(Merge branch (.*?)))(?:\r?\n)*$)|",
        r"^(Merge tag (.*?))(?:\r?\n)*$|",
        r"^(R|r)evert (.*)|",
        r"^(Merged (.*?)(in|into) (.*)|Merged PR (.*): (.*))$|",
        r"^Merge remote-tracking branch(\s*)(.*)$|",
        r"^Automatic merge(.*)$|",
        r"^Auto-merged (.*?) into (.*)$|",
        r"^[Bb]ump [^\s]+ from [^\s]+ to [^\s]+|",
        r"^[Ii]nitial [Cc]ommit$",
    ]
    .concat())
    .unwrap()
}

fn expected_detailed(re: &Regex, message: &str) -> Vec<String> {
    let Some(c) = re.captures(message) else {
        return vec![INCORRECT_FORMAT_ERROR.to_string()];
    };
    if c.name("colon").is_none() {
        return vec![INCORRECT_FORMAT_ERROR.to_string()];
    }
    let mut errors = Vec::new();
    match c.name("type") {
        None => errors.push(COMMIT_TYPE_MISSING_ERROR.to_string()),
        Some(m) => {
            let t = m.as_str().trim();
            if t.is_empty() {
                errors.push(COMMIT_TYPE_MISSING_ERROR.to_string());
            } else if !COMMIT_TYPES.contains(&t) {
                errors.push(commit_type_invalid_error(t));
            }
        }
    }
    if let Some(m) = c.name("type") {
        if m.as_str().ends_with(' ') {
            errors.push(SPACE_AFTER_COMMIT_TYPE_ERROR.to_string());
        }
    }
    if let Some(m) = c.name("scope") {
        if m.as_str().is_empty() {
            errors.push(SCOPE_EMPTY_ERROR.to_string());
        } else if m.as_str().contains(' ') {
            errors.push(SCOPE_WHITESPACE_ERROR.to_string());
        }
    }
    if let Some(m) = c.name("space_after_scope") {
        if m.as_str().contains(' ') {
            errors.push(SPACE_AFTER_SCOPE_ERROR.to_string());
        }
    }
    if let Some(d) = c.name("description") {
        if d.as_str().is_empty() {
            errors.push(DESCRIPTION_MISSING_ERROR.to_string());
        } else if !c.name("colon").unwrap().as_str().ends_with(' ') {
            errors.push(DESCRIPTION_NO_LEADING_SPACE_ERROR.to_string());
        }
    }
    if let Some(d) = c.name("description") {
        if d.as_str().starts_with(' ') {
            errors.push(DESCRIPTION_MULTIPLE_SPACE_START_ERROR.to_string());
        }
    }
    if let Some(sep) = c.name("body_separation") {
        let body = c.name("body").map(|m| m.as_str()).unwrap_or("");
        if sep.as_str() == "\n" && !body.is_empty() {
            errors.push(DESCRIPTION_LINE_BREAK_ERROR.to_string());
        }
    }
    if let Some(d) = c.name("description") {
        if d.as_str().trim().ends_with('.') {
            errors.push(DESCRIPTION_FULL_STOP_END_ERROR.to_string());
        }
    }
    errors
}

const TOKENS: [&str; 44] = [
    "feat", "fix", "build", "ci", "chore", "wip", "Feat", "(", ")", "()", "(api)", "!", ":", ": ",
    " ", "  ", "\t", "\n", "\n\n", "\r", "\r\n", ".", "a", "add thing", "é", "ß1", "_x", "x y",
    "Merge ", " into ", "branch ", "Merge pull request", "Bump ", "bump ", " from ", " to ", "1.2",
    "Revert ", "Merged ", "in ", "Auto-merged ", "Initial commit", "#", "\u{a0}",
];

struct Lcg(u64);

impl Lcg {
    fn next(&mut self) -> usize {
        self.0 = self.0.wrapping_mul(6364136223846793005).wrapping_add(1442695040888963407);
        (self.0 >> 33) as usize
    }

    fn message(&mut self) -> String {
        let len = self.next() % 9;
        let mut s = String::new();
        for _ in 0..len {
            s.push_str(TOKENS[self.next() % TOKENS.len()]);
        }
        s
    }
}

#[test]
fn strict_pattern_agrees_with_regex_engine() {
    let re = strict_regex();
    let mut rng = Lcg(1);
    for _ in 0..20000 {
        let m = rng.message();
        assert_eq!(validate_simple_pattern(&m).is_none(), re.is_match(&m), "message {:?}", m);
    }
    for t in COMMIT_TYPES {
        for tail in [": abc", "(x)!: ab.", ": ab\n\nbody", "(a)b): xyz", ": a\tb  \n", ": ab"] {
            let m = format!("{t}{tail}");
            assert_eq!(validate_simple_pattern(&m).is_none(), re.is_match(&m), "message {:?}", m);
        }
    }
}

#[test]
fn detailed_pattern_agrees_with_regex_engine() {
    let re = lenient_regex();
    let mut rng = Lcg(7);
    for _ in 0..20000 {
        let m = rng.message();
        assert_eq!(validate_detailed_pattern(&m), expected_detailed(&re, &m), "message {:?}", m);
    }
}

#[test]
fn ignore_patterns_agree_with_regex_engine() {
    let re = ignore_regex();
    let mut rng = Lcg(11);
    for _ in 0..20000 {
        let m = rng.message();
        assert_eq!(is_ignored(&m), re.is_match(&m), "message {:?}", m);
    }
    for m in [
        "Merge pull request #123",
        "Merge branch 'main' into develop\r\n\n",
        "Merge a into b\nx",
        "Merge tag v1\n",
        "revert x",
        "Merged x in y",
        "Merged PR 12: fix",
        "Merge remote-tracking branch  \n origin",
        "Automatic merge of x",
        "Auto-merged a into b",
        "Bump urllib3 from 1.26.5 to 1.26.17",
        "bump a from b to  c",
        "initial Commit",
        "Initial commit\n",
    ] {
        assert_eq!(is_ignored(m), re.is_match(m), "message {:?}", m);
    }
}
