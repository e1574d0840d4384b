use yammm::manage::{
    cycle_category_filter, source_short_tag, CategoryFilter, DepMarks, DetailField, ModListState,
    StatusKind, StatusLine,
};
use yammm::types::ModSource;

#[test]
fn detail_fields_labels_and_keys() {
    let fields = DetailField::fields();
    assert_eq!(fields.len(), 7);
    assert_eq!(fields[4].label(), "Dependencies");
    assert_eq!(fields[6].label(), "Check update");
    let keys: String = fields.iter().map(|f| f.shortcut()).collect();
    assert_eq!(keys, "vedctru");
}

#[test]
fn short_tags() {
    assert_eq!(source_short_tag(&ModSource::modrinth("x")), "mr");
    assert_eq!(source_short_tag(&ModSource::curseforge("1")), "cf");
    assert_eq!(source_short_tag(&ModSource::url("https://a")), "url");
}

#[test]
fn category_filter_cycles_back_to_all() {
    let mut f = CategoryFilter::All;
    f = cycle_category_filter(f, 2);
    assert_eq!(f, CategoryFilter::Category(0));
    f = cycle_category_filter(f, 2);
    assert_eq!(f, CategoryFilter::Category(1));
    f = cycle_category_filter(f, 2);
    assert_eq!(f, CategoryFilter::All);
    assert_eq!(cycle_category_filter(CategoryFilter::All, 0), CategoryFilter::All);
}

#[test]
fn list_selection_stays_in_bounds() {
    let mut s = ModListState {
        filtered_indices: vec![0, 1],
        selected: 0,
        scroll_offset: 0,
    };
    s.move_up();
    assert_eq!(s.selected, 0);
    s.move_down();
    s.move_down();
    assert_eq!(s.selected, 1);
    s.filtered_indices = vec![];
    s.clamp_after_filter();
    assert_eq!(s.selected, 0);
}

#[test]
fn status_expires_after_sixty_ticks() {
    let mut st = StatusLine::new();
    st.set_status(StatusKind::Success, "saved".to_string());
    for _ in 0..59 {
        st.tick_status();
    }
    assert!(st.message.is_some());
    st.tick_status();
    assert!(st.message.is_none());
}

#[test]
fn marks_toggle() {
    let mut m = DepMarks { marked: Vec::new() };
    m.toggle_mark("sodium", false);
    assert_eq!(m.marked, vec!["sodium".to_string()]);
    m.toggle_mark("iris", true);
    assert_eq!(m.marked.len(), 1);
    m.toggle_mark("sodium", false);
    assert!(m.marked.is_empty());
    let rows = vec![("a".to_string(), false), ("b".to_string(), true), ("c".to_string(), false)];
    m.toggle_all(&rows);
    let mut got = m.marked.clone();
    got.sort();
    assert_eq!(got, vec!["a".to_string(), "c".to_string()]);
    m.toggle_all(&rows);
    assert!(m.marked.is_empty());
}
