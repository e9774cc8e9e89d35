use aish::alias::expand_aliases;
use aish::table::Table;

fn table(pairs: &[(&str, &str)]) -> Table {
    let mut t = Table::new();
    for (k, v) in pairs {
        t.insert(k.to_string(), v.to_string());
    }
    t
}

#[test]
fn alias_head_expands_to_its_value() {
    let aliases = table(&[("ll", "ls -l"), ("g", "git")]);
    assert_eq!(expand_aliases("ll", &aliases), "ls -l");
    assert_eq!(expand_aliases("ll /tmp", &aliases), "ls -l /tmp");
    assert_eq!(expand_aliases("  ll   /tmp  ", &aliases), "  ls -l   /tmp  ");
    assert_eq!(expand_aliases("g status", &aliases), "git status");
}

#[test]
fn alias_is_expanded_in_the_head_only() {
    let aliases = table(&[("ll", "ls -l")]);
    assert_eq!(expand_aliases("echo ll", &aliases), "echo ll");
    assert_eq!(expand_aliases("llx", &aliases), "llx");
    assert_eq!(expand_aliases("", &aliases), "");
    assert_eq!(expand_aliases("   ", &aliases), "   ");
}

#[test]
fn alias_is_expanded_in_each_segment() {
    let aliases = table(&[("ll", "ls -l"), ("c", "cat")]);
    assert_eq!(expand_aliases("ll;ll", &aliases), "ls -l;ls -l");
    assert_eq!(expand_aliases("ll | c && ll; c x", &aliases), "ls -l | cat && ls -l; cat x");
    assert_eq!(expand_aliases("ll &", &aliases), "ls -l &");
    assert_eq!(expand_aliases("ll;", &aliases), "ls -l;");
}

#[test]
fn alias_separators_in_quotes_cut_nothing() {
    let aliases = table(&[("ll", "ls -l"), ("b", "B")]);
    assert_eq!(expand_aliases("echo 'a; b' ; b", &aliases), "echo 'a; b' ; B");
    assert_eq!(expand_aliases("echo \"a | b\" | b", &aliases), "echo \"a | b\" | B");
    assert_eq!(expand_aliases("echo \"a \\\" && b\" && b", &aliases), "echo \"a \\\" && b\" && B");
    assert_eq!(expand_aliases("echo a\\; b ; b", &aliases), "echo a\\; b ; B");
    assert_eq!(expand_aliases("echo 'a\\' ; b", &aliases), "echo 'a\\' ; B");
}

#[test]
fn alias_expansion_goes_on_with_the_new_head() {
    let aliases = table(&[("a", "b 1"), ("b", "c 2"), ("c", "echo 3")]);
    assert_eq!(expand_aliases("a x", &aliases), "echo 3 2 1 x");
}

#[test]
fn alias_expansion_ends_at_its_own_name() {
    let aliases = table(&[("ls", "ls -F"), ("grep", "grep --color")]);
    assert_eq!(expand_aliases("ls /tmp", &aliases), "ls -F /tmp");
    assert_eq!(expand_aliases("ls | grep x", &aliases), "ls -F | grep --color x");
}

#[test]
fn alias_expansion_is_bounded_by_ten_steps() {
    let aliases = table(&[("a", "b"), ("b", "a")]);
    assert_eq!(expand_aliases("a", &aliases), "a");
    let aliases = table(&[("a", "b x"), ("b", "a y")]);
    assert_eq!(expand_aliases("a", &aliases), "a y x y x y x y x y x");
    let chain: Vec<(String, String)> =
        (0..12).map(|i| (format!("n{}", i), format!("n{}", i + 1))).collect();
    let mut aliases = Table::new();
    for (k, v) in &chain {
        aliases.insert(k.clone(), v.clone());
    }
    assert_eq!(expand_aliases("n0", &aliases), "n10");
    assert_eq!(expand_aliases("n5", &aliases), "n12");
}

#[test]
fn alias_segment_that_starts_with_alias_stays() {
    let aliases = table(&[("alias", "echo"), ("x", "y")]);
    assert_eq!(expand_aliases("alias x", &aliases), "alias x");
    assert_eq!(expand_aliases("alias x=z; x", &aliases), "alias x=z; z");
}

#[test]
fn alias_definition_is_seen_by_later_segments() {
    let aliases = Table::new();
    assert_eq!(expand_aliases("alias x=y && x", &aliases), "alias x=y && y");
    assert_eq!(expand_aliases("x && alias x=y", &aliases), "x && alias x=y");
    assert_eq!(
        expand_aliases("alias a='echo A' && alias a='echo B' && a", &aliases),
        "alias a='echo A' && alias a='echo B' && echo B"
    );
    assert_eq!(
        expand_aliases("alias  g=\"git log\"  ; g -1 | g", &aliases),
        "alias  g=\"git log\"  ; git log -1 | git log"
    );
    assert_eq!(expand_aliases("alias x; x", &aliases), "alias x; x");
    assert_eq!(aliases.len(), 0);
}
