use changelog::assemble::{
    generate_changelog, render_changelog, render_project, ShortHashIn, BUGFIX_TITLE, FEATURE_TITLE,
};
use changelog::classify::ShortHash;
use changelog::model::{Commit, Project, ProjectList};

fn entry(hash: &str, message: &str) -> Commit {
    Commit {
        hash: hash.to_string(),
        message: message.to_string(),
        author_name: "Ada".to_string(),
        author_email: "ada@example.com".to_string(),
        date: "Mon Jan 1 00:00:00 2024 +0000".to_string(),
    }
}

fn alpha() -> Project {
    Project {
        name: "alpha".to_string(),
        remote: "https://example.com/alpha".to_string(),
        commits: vec![
            entry("abcdef1234", "feat: add login"),
            entry("1111111111", "fix: null pointer"),
            entry("2222222222", "chore: cleanup"),
        ],
    }
}

fn beta() -> Project {
    Project { name: "beta".to_string(), remote: "https://example.com/beta".to_string(), commits: vec![] }
}

const ALPHA_BLOCK: &str = "## alpha\n### :bug: Bugfixes\n - null pointer [#11111111](https://example.com/alpha/commits/1111111111)\n### :rocket: Features\n - add login [#abcdef12](https://example.com/alpha/commits/abcdef1234)\n\n";

#[test]
fn section_titles_have_their_documented_values() {
    assert_eq!(BUGFIX_TITLE, "### :bug: Bugfixes\n");
    assert_eq!(FEATURE_TITLE, "### :rocket: Features\n");
}

#[test]
fn block_scenario_alpha() {
    assert_eq!(render_project(&alpha()), Ok(ALPHA_BLOCK.to_string()));
}

#[test]
fn block_of_a_project_without_entries_is_its_name_and_a_blank_line() {
    assert_eq!(render_project(&beta()), Ok("## beta\n\n".to_string()));
    let only_chores = Project {
        name: "name".to_string(),
        remote: "r".to_string(),
        commits: vec![entry("0123456789", "chore: nothing to show")],
    };
    assert_eq!(render_project(&only_chores), Ok("## name\n\n".to_string()));
}

#[test]
fn block_with_features_only_has_no_bugfix_section() {
    let p = Project {
        name: "p".to_string(),
        remote: "r".to_string(),
        commits: vec![entry("0123456789", "feat: one")],
    };
    assert_eq!(
        render_project(&p),
        Ok("## p\n### :rocket: Features\n - one [#01234567](r/commits/0123456789)\n\n".to_string())
    );
}

#[test]
fn block_with_bugfixes_only_has_no_feature_section() {
    let p = Project {
        name: "p".to_string(),
        remote: "r".to_string(),
        commits: vec![entry("0123456789", "fix: one")],
    };
    assert_eq!(
        render_project(&p),
        Ok("## p\n### :bug: Bugfixes\n - one [#01234567](r/commits/0123456789)\n\n".to_string())
    );
}

#[test]
fn block_lists_bugfixes_before_features() {
    let block = render_project(&alpha()).unwrap();
    let bugs = block.find("### :bug: Bugfixes").unwrap();
    let features = block.find("### :rocket: Features").unwrap();
    assert!(bugs < features);
}

#[test]
fn block_fails_on_a_short_hash() {
    let p = Project {
        name: "p".to_string(),
        remote: "r".to_string(),
        commits: vec![entry("0123456789", "feat: fine"), entry("0123", "feat: short")],
    };
    assert_eq!(render_project(&p), Err(ShortHash { commit: 1 }));
}

#[test]
fn changelog_scenario_alpha_then_beta() {
    let list = ProjectList { projects: vec![alpha(), beta()] };
    let expected = format!("# Changelog for 2024-03-05\n\n{}## beta\n\n", ALPHA_BLOCK);
    assert_eq!(render_changelog("2024-03-05", &list), Ok(expected));
}

#[test]
fn changelog_keeps_the_order_of_the_projects() {
    let list = ProjectList { projects: vec![beta(), alpha()] };
    let expected = format!("# Changelog for 2024-03-05\n\n## beta\n\n{}", ALPHA_BLOCK);
    assert_eq!(render_changelog("2024-03-05", &list), Ok(expected));
}

#[test]
fn changelog_of_no_projects_is_its_title() {
    let list = ProjectList { projects: vec![] };
    assert_eq!(render_changelog("2024-03-05", &list), Ok("# Changelog for 2024-03-05\n\n".to_string()));
}

#[test]
fn changelog_writes_the_date_as_given() {
    let list = ProjectList { projects: vec![] };
    assert_eq!(render_changelog("", &list), Ok("# Changelog for \n\n".to_string()));
    assert_eq!(render_changelog("+12345-01-01", &list), Ok("# Changelog for +12345-01-01\n\n".to_string()));
}

#[test]
fn changelog_rendered_twice_is_identical() {
    let list = ProjectList { projects: vec![alpha(), beta(), alpha()] };
    let once = render_changelog("2024-03-05", &list).unwrap();
    let again = render_changelog("2024-03-05", &list).unwrap();
    assert_eq!(once.as_bytes(), again.as_bytes());
}

#[test]
fn changelog_fails_on_the_first_short_hash() {
    let short = Project {
        name: "short".to_string(),
        remote: "r".to_string(),
        commits: vec![entry("0123456789", "docs: x"), entry("012", "fix: y"), entry("0", "fix: z")],
    };
    let shorter = Project {
        name: "shorter".to_string(),
        remote: "r".to_string(),
        commits: vec![entry("", "feat: w")],
    };
    let list = ProjectList { projects: vec![alpha(), beta(), short, shorter] };
    assert_eq!(render_changelog("2024-03-05", &list), Err(ShortHashIn { project: 2, commit: 1 }));
    assert_eq!(generate_changelog(&list), Err(ShortHashIn { project: 2, commit: 1 }));
}

#[test]
fn generated_changelog_is_the_rendering_under_its_own_date() {
    let list = ProjectList { projects: vec![alpha(), beta()] };
    let text = generate_changelog(&list).unwrap();
    let rest = text.strip_prefix("# Changelog for ").unwrap();
    let date = &rest[..rest.find('\n').unwrap()];
    assert_eq!(render_changelog(date, &list), Ok(text.clone()));
}

#[test]
fn generated_changelog_is_dated_by_year_month_day() {
    let list = ProjectList { projects: vec![] };
    let text = generate_changelog(&list).unwrap();
    let rest = text.strip_prefix("# Changelog for ").unwrap();
    let date = rest.strip_suffix("\n\n").unwrap();
    let parts: Vec<&str> = date.split('-').collect();
    assert_eq!(parts.len(), 3);
    assert!(parts.iter().all(|p| !p.is_empty() && p.chars().all(|c| c.is_ascii_digit())));
    assert_eq!(parts[0].len(), 4);
    assert_eq!(parts[1].len(), 2);
    assert_eq!(parts[2].len(), 2);
    let month: u32 = parts[1].parse().unwrap();
    let day: u32 = parts[2].parse().unwrap();
    assert!((1..=12).contains(&month));
    assert!((1..=31).contains(&day));
}
