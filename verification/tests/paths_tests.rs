use yammm::paths::clean_path;

fn clean(p: &str) -> String {
    clean_path(&p.chars().collect::<Vec<char>>()).into_iter().collect()
}

#[test]
fn cleaning_collapses_separators_and_dots() {
    for (input, expected) in [
        ("", "."),
        (".", "."),
        ("..", ".."),
        ("/", "/"),
        ("//..", "/"),
        ("..//", ".."),
        ("/.//./", "/"),
        ("path//to///thing", "path/to/thing"),
        ("./test/./path", "test/path"),
        ("test/path/.", "test/path"),
        ("a/../../b", "../b"),
        ("/a/b/../c", "/a/c"),
    ] {
        assert_eq!(clean(input), expected, "{input}");
    }
}
