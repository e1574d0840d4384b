use yammm::commands::CliSource;
use yammm::types::ModSource;

fn describe(s: &ModSource) -> String {
    match s {
        ModSource::Modrinth { id } => format!("mr:{}", id),
        ModSource::CurseForge { id } => format!("cf:{}", id),
        ModSource::Url { url } => format!("url:{}", url),
    }
}

#[test]
fn urls_win_over_the_chosen_provider() {
    let s = CliSource::CurseForge.to_mod_source("https://example.com/a.jar");
    assert_eq!(describe(&s), "url:https://example.com/a.jar");
    let s = CliSource::Modrinth.to_mod_source("file:///tmp/a.jar");
    assert_eq!(describe(&s), "url:file:///tmp/a.jar");
    assert!(ModSource::is_url_like("http://x"));
    assert!(!ModSource::is_url_like("ftp://x"));
}

#[test]
fn plain_identifiers_use_the_provider() {
    assert_eq!(describe(&CliSource::Modrinth.to_mod_source("sodium")), "mr:sodium");
    assert_eq!(describe(&CliSource::CurseForge.to_mod_source("jei")), "cf:jei");
}
